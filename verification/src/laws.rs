//! Properties of the checker that hold of every input.
use vstd::prelude::*;
use crate::env::{add_type, add_var, begin_scope, end_scope, look_type, look_var, lookup, EnvV, TableV, VEntry};
use crate::infer::{lookup_tv, mismatch, mismatch_fields, mismatch_list, same_head, subst_type, subst_tycon, zip_subst};
use crate::report::Diagnostic;
use crate::syntax::{Expression, Function, Span, Spanned, Statement, Struct, Ty, TyAlias, Var};
use crate::types::{Symbol, Unique, VTyCon, VType};
use crate::typing::{
    alias_spec, bind_params, field_decl_tys, name_fields, ty_list_spec, bind_type_params, block_spec, expr_spec, fresh_vars, function_spec, param_tys, stmt_spec,
    struct_spec, ty_spec, var_spec, min, Outcome,
};

verus! {

/// Looking a name up right after binding it gives what it was bound to,
/// in either namespace.
pub proof fn law_lookup_after_add(e: EnvV, s: Symbol, t: VType, entry: VEntry)
    ensures
        look_var(add_var(e, s, t), s) == Some(t),
        look_type(add_type(e, s, entry), s) == Some(entry),
{
    assert(add_var(e, s, t).vars.bindings.drop_last() =~= e.vars.bindings);
}

/// Binding one name leaves every other name as it was.
pub proof fn law_lookup_other(e: EnvV, s: Symbol, o: Symbol, t: VType, entry: VEntry)
    requires
        s != o,
    ensures
        look_var(add_var(e, s, t), o) == look_var(e, o),
        look_type(add_type(e, s, entry), o) == look_type(e, o),
{
    assert(add_var(e, s, t).vars.bindings.drop_last() =~= e.vars.bindings);
    assert(add_type(e, s, entry).types.bindings.drop_last() =~= e.types.bindings);
}

/// Closing a scope undoes opening it, whatever variables were bound in
/// between.
pub proof fn law_scope_restores(e: EnvV, locals: Seq<(Symbol, VType)>)
    ensures
        end_scope(
            EnvV {
                vars: TableV { bindings: begin_scope(e).vars.bindings + locals, marks: begin_scope(e).vars.marks },
                ..begin_scope(e)
            },
        ) == e,
{
    let inner = EnvV {
        vars: TableV { bindings: begin_scope(e).vars.bindings + locals, marks: begin_scope(e).vars.marks },
        ..begin_scope(e)
    };
    assert(end_scope(inner).vars.bindings =~= e.vars.bindings);
    assert(end_scope(inner).vars.marks =~= e.vars.marks);
    assert(end_scope(inner).types.bindings =~= e.types.bindings);
    assert(end_scope(inner).types.marks =~= e.types.marks);
    assert(end_scope(inner) =~= e);
}

/// Every type unifies with itself.
pub proof fn law_unify_reflexive(t: VType)
    ensures
        mismatch(t, t) is None,
    decreases t, 0nat,
{
    match t {
        VType::App(c, ts) => {
            lemma_list_reflexive(ts, 0);
            match c {
                VTyCon::Fun(_, b) => law_unify_reflexive(*b),
                _ => {},
            }
        },
        VType::Struct(_, fs, _) => lemma_fields_reflexive(fs, 0),
        VType::Poly(_, b) => law_unify_reflexive(*b),
        _ => {},
    }
}

proof fn lemma_list_reflexive(ts: Seq<VType>, i: int)
    ensures
        mismatch_list(ts, ts, i) is None,
    decreases ts, ts.len() - i,
{
    if 0 <= i < ts.len() {
        law_unify_reflexive(ts[i]);
        lemma_list_reflexive(ts, i + 1);
    }
}

proof fn lemma_fields_reflexive(fs: Seq<(Symbol, VType)>, i: int)
    ensures
        mismatch_fields(fs, fs, i) is None,
    decreases fs, fs.len() - i,
{
    if 0 <= i < fs.len() {
        law_unify_reflexive(fs[i].1);
        lemma_fields_reflexive(fs, i + 1);
    }
}

/// Unification does not depend on the order of its two sides.
pub proof fn law_unify_symmetric(a: VType, b: VType)
    ensures
        (mismatch(a, b) is None) == (mismatch(b, a) is None),
{
    lemma_unify_symmetric(a, b);
    lemma_unify_symmetric(b, a);
}

proof fn lemma_unify_symmetric(a: VType, b: VType)
    ensures
        mismatch(a, b) is None ==> mismatch(b, a) is None,
    decreases a, 0nat,
{
    if mismatch(a, b) is None {
        match (a, b) {
            (VType::App(c1, ts1), VType::App(c2, ts2)) => {
                assert(same_head(c2, c1));
                lemma_list_symmetric(ts1, ts2, 0);
                match (c1, c2) {
                    (VTyCon::Fun(_, b1), VTyCon::Fun(_, b2)) => lemma_unify_symmetric(*b1, *b2),
                    _ => {},
                }
            },
            (VType::Struct(_, f1, _), VType::Struct(_, f2, _)) => lemma_fields_symmetric(f1, f2, 0),
            (VType::Poly(_, b1), VType::Poly(_, b2)) => lemma_unify_symmetric(*b1, *b2),
            _ => {},
        }
    }
}

proof fn lemma_list_symmetric(xs: Seq<VType>, ys: Seq<VType>, i: int)
    ensures
        mismatch_list(xs, ys, i) is None ==> mismatch_list(ys, xs, i) is None,
    decreases xs, xs.len() - i,
{
    if 0 <= i < xs.len() && i < ys.len() {
        lemma_unify_symmetric(xs[i], ys[i]);
        lemma_list_symmetric(xs, ys, i + 1);
    }
}

proof fn lemma_fields_symmetric(xs: Seq<(Symbol, VType)>, ys: Seq<(Symbol, VType)>, i: int)
    ensures
        mismatch_fields(xs, ys, i) is None ==> mismatch_fields(ys, xs, i) is None,
    decreases xs, xs.len() - i,
{
    if 0 <= i < xs.len() && i < ys.len() {
        lemma_unify_symmetric(xs[i].1, ys[i].1);
        lemma_fields_symmetric(xs, ys, i + 1);
    }
}

/// Substituting with no bindings changes nothing.
pub proof fn law_subst_empty(t: VType)
    ensures
        subst_type(t, Seq::empty()) == t,
    decreases t, 0nat,
{
    match t {
        VType::App(c, ts) => {
            assert forall|i: int| 0 <= i < ts.len() implies subst_type(ts[i], Seq::empty()) == ts[i] by {
                law_subst_empty(ts[i]);
            }
            match c {
                VTyCon::Fun(_, b) => law_subst_empty(*b),
                _ => {},
            }
            assert(subst_tycon(c, Seq::empty()) == c);
            assert(subst_type(t, Seq::empty())->App_1 =~= ts);
        },
        VType::Struct(_, fs, _) => {
            assert forall|i: int| 0 <= i < fs.len() implies subst_type(fs[i].1, Seq::empty()) == fs[i].1 by {
                law_subst_empty(fs[i].1);
            }
            assert(subst_type(t, Seq::empty())->Struct_1 =~= fs);
        },
        VType::Poly(_, b) => law_subst_empty(*b),
        VType::Var(v) => {
            assert(lookup_tv(Seq::empty(), v) is None);
        },
        VType::Nil => {},
    }
}

/// A subscript never has a type: the checker requires its target to be an
/// integer and then a string.
pub proof fn law_subscript_never_typed(v: Spanned<Var>, env: EnvV)
    requires
        v.value is SubScript,
    ensures
        var_spec(v, env).0 !is Done,
{
}

/// `after` holds every binding of `before`, the same types and scopes,
/// and perhaps more variables bound after them.
pub open spec fn only_adds_vars(before: EnvV, after: EnvV) -> bool {
    &&& after.types == before.types
    &&& after.vars.marks == before.vars.marks
    &&& before.vars.bindings.len() <= after.vars.bindings.len()
    &&& after.vars.bindings.subrange(0, before.vars.bindings.len() as int) == before.vars.bindings
    &&& after.next_tyvar == before.next_tyvar
    &&& after.next_unique == before.next_unique
}

proof fn lemma_only_adds_trans(a: EnvV, b: EnvV, c: EnvV)
    requires
        only_adds_vars(a, b),
        only_adds_vars(b, c),
    ensures
        only_adds_vars(a, c),
{
    assert(c.vars.bindings.subrange(0, a.vars.bindings.len() as int) =~= b.vars.bindings.subrange(
        0,
        a.vars.bindings.len() as int,
    ));
}

proof fn lemma_only_adds_var(e: EnvV, x: Symbol, t: VType)
    ensures
        only_adds_vars(e, add_var(e, x, t)),
{
    assert(add_var(e, x, t).vars.bindings.subrange(0, e.vars.bindings.len() as int) =~= e.vars.bindings);
}

/// Checking a statement never removes a binding, never touches the type
/// namespace and never opens or closes a scope: at most it binds variables.
pub proof fn law_statement_only_adds_vars(s: Spanned<Statement>, env: EnvV)
    ensures
        only_adds_vars(env, stmt_spec(s, env).1),
    decreases s, 0nat,
{
    assert(env.vars.bindings.subrange(0, env.vars.bindings.len() as int) =~= env.vars.bindings);
    match s.value {
        Statement::Block(ss) => lemma_block_only_adds_vars(ss@, 0, VType::Nil, env),
        Statement::For { init, cond, incr, body } => {
            if init is None && cond is None && incr is None {
                law_statement_only_adds_vars(*body, env);
            } else {
                match init {
                    Some(st) => {
                        law_statement_only_adds_vars(*st, env);
                        let env1 = stmt_spec(*st, env).1;
                        law_statement_only_adds_vars(*body, env1);
                        lemma_only_adds_trans(env, env1, stmt_spec(*body, env1).1);
                    },
                    None => law_statement_only_adds_vars(*body, env),
                }
            }
        },
        Statement::If { cond, then, otherwise } => {
            law_statement_only_adds_vars(*then, env);
            let env1 = stmt_spec(*then, env).1;
            match otherwise {
                Some(o) => {
                    law_statement_only_adds_vars(*o, env1);
                    lemma_only_adds_trans(env, env1, stmt_spec(*o, env1).1);
                },
                None => {},
            }
        },
        Statement::Let { ident, ty, expr } => {
            match expr {
                Some(x) => match expr_spec(x, env).0 {
                    Outcome::Done(et) => lemma_only_adds_var(env, ident.value, et),
                    _ => {},
                },
                None => match ty {
                    Some(ta) => match ty_spec(ta, env).0 {
                        Outcome::Done(t) => lemma_only_adds_var(env, ident.value, t),
                        _ => {},
                    },
                    None => lemma_only_adds_var(env, ident.value, VType::Nil),
                },
            }
        },
        Statement::While { cond, body } => law_statement_only_adds_vars(*body, env),
        _ => {},
    }
}

proof fn lemma_block_only_adds_vars(ss: Seq<Spanned<Statement>>, i: int, last: VType, env: EnvV)
    ensures
        only_adds_vars(env, block_spec(ss, i, last, env).1),
    decreases ss, ss.len() - i,
{
    assert(env.vars.bindings.subrange(0, env.vars.bindings.len() as int) =~= env.vars.bindings);
    if 0 <= i < ss.len() {
        law_statement_only_adds_vars(ss[i], env);
        let a = stmt_spec(ss[i], env);
        match a.0 {
            Outcome::Done(t) => {
                lemma_block_only_adds_vars(ss, i + 1, t, a.1);
                lemma_only_adds_trans(env, a.1, block_spec(ss, i + 1, t, a.1).1);
            },
            _ => {},
        }
    }
}

/// The type a function declaration gives its name: polymorphic over its
/// type parameters, an arrow from its parameter types to its return type.
pub open spec fn declared_type(f: Spanned<Function>, env: EnvV) -> VType {
    let ps = f.value.name.value.type_params@;
    let env1 = bind_type_params(env, ps);
    let ret = match f.value.return_ty {
        Some(rt) => ty_spec(rt, env1).0->Done_0,
        None => VType::Nil,
    };
    let params = f.value.params.value@;
    let pts = ty_list_spec(param_tys(params), 0, params.len() as int, env1).0->Done_0;
    VType::Poly(fresh_vars(env.next_tyvar, ps.len()), Box::new(VType::App(VTyCon::Arrow, pts.push(ret))))
}

/// A function that checks leaves behind its type parameters and its own
/// name bound to its type; its parameters and locals go out of scope.
pub proof fn law_function_scope(f: Spanned<Function>, env: EnvV)
    requires
        function_spec(f, env).0 is Done,
    ensures
        function_spec(f, env).1 == add_var(
            bind_type_params(env, f.value.name.value.type_params@),
            f.value.name.value.name.value,
            declared_type(f, env),
        ),
        look_var(function_spec(f, env).1, f.value.name.value.name.value) == Some(declared_type(f, env)),
{
    let ps = f.value.name.value.type_params@;
    let name = f.value.name.value.name.value;
    let env1 = bind_type_params(env, ps);
    let env2 = add_var(env1, name, declared_type(f, env));
    let params = f.value.params.value@;
    let ret = match f.value.return_ty {
        Some(rt) => ty_spec(rt, env1).0->Done_0,
        None => VType::Nil,
    };
    let pts = ty_list_spec(param_tys(params), 0, params.len() as int, env1).0->Done_0;
    let env3 = bind_params(begin_scope(env2), params, pts.push(ret));
    law_statement_only_adds_vars(f.value.body, env3);
    let after = stmt_spec(f.value.body, env3).1;
    let fin = end_scope(after);
    assert(fin.types.bindings =~= env2.types.bindings);
    assert(fin.types.marks =~= env2.types.marks);
    assert(after.vars.bindings.subrange(0, env2.vars.bindings.len() as int) =~= env2.vars.bindings) by {
        assert(env3.vars.bindings.subrange(0, env2.vars.bindings.len() as int) =~= env2.vars.bindings);
        assert(after.vars.bindings.subrange(0, env2.vars.bindings.len() as int) =~= env3.vars.bindings.subrange(
            0,
            env2.vars.bindings.len() as int,
        ));
    }
    assert(fin.vars.bindings =~= env2.vars.bindings);
    assert(fin.vars.marks =~= env2.vars.marks);
    assert(fin =~= env2);
    law_lookup_after_add(env1, name, declared_type(f, env), VEntry::Ty(VType::Nil));
}

/// A list of written types that translates has one type per entry.
pub proof fn lemma_ty_list_len(ts: Seq<Spanned<Ty>>, i: int, n: int, env: EnvV)
    requires
        0 <= i <= n <= ts.len(),
    ensures
        ty_list_spec(ts, i, n, env).0 matches Outcome::Done(r) ==> r.len() == n - i,
    decreases n - i,
{
    if i < n {
        lemma_ty_list_len(ts, i + 1, n, env);
    }
}

/// A struct declaration that checks binds the struct's name to a struct
/// type with the next identity of this environment, polymorphic over its
/// next type variables, with one field per declared field, named as
/// declared and in order.
pub proof fn law_struct_binding(sd: Spanned<Struct>, env: EnvV)
    requires
        struct_spec(sd, env).0 is Done,
    ensures
        ({
            &&& look_type(struct_spec(sd, env).1, sd.value.name.value.name.value) matches Some(
                VEntry::Ty(VType::Poly(vs, inner)),
            )
            &&& vs == fresh_vars(env.next_tyvar, sd.value.name.value.type_params@.len())
            &&& *inner matches VType::Struct(n, fs, u)
            &&& n == sd.value.name.value.name.value
            &&& u == Unique(env.next_unique)
            &&& fs.len() == sd.value.fields.value@.len()
            &&& forall|k: int| 0 <= k < fs.len() ==> #[trigger] fs[k].0 == sd.value.fields.value@[k].value.name.value
        }),
{
    let ps = sd.value.name.value.type_params@;
    let name = sd.value.name.value.name.value;
    let env1 = bind_type_params(env, ps);
    let env2 = EnvV { next_unique: (env1.next_unique + 1) as u32, ..env1 };
    let u = Unique(env1.next_unique);
    let vs = fresh_vars(env.next_tyvar, ps.len());
    let env3 = add_type(env2, name, VEntry::Ty(VType::Poly(vs, Box::new(VType::Struct(name, seq![], u)))));
    let fs = sd.value.fields.value@;
    lemma_ty_list_len(field_decl_tys(fs), 0, fs.len() as int, env3);
    let ts = ty_list_spec(field_decl_tys(fs), 0, fs.len() as int, env3).0->Done_0;
    let entry = VEntry::Ty(VType::Poly(vs, Box::new(VType::Struct(name, name_fields(fs, ts), u))));
    law_lookup_after_add(env3, name, VType::Nil, entry);
}

/// Every struct declaration uses up one identity, whether it checks or not.
pub proof fn law_struct_uses_one_identity(sd: Spanned<Struct>, env: EnvV)
    ensures
        struct_spec(sd, env).1.next_unique == (env.next_unique + 1) as u32,
{
}

/// Two struct declarations in a row on one environment give their structs
/// different identities.
pub proof fn law_struct_identities_differ(sd1: Spanned<Struct>, sd2: Spanned<Struct>, env: EnvV)
    requires
        env.next_unique + 1 < u32::MAX,
        struct_spec(sd1, env).0 is Done,
        struct_spec(sd2, struct_spec(sd1, env).1).0 is Done,
    ensures
        ({
            let e1 = struct_spec(sd1, env).1;
            let e2 = struct_spec(sd2, e1).1;
            (look_type(e1, sd1.value.name.value.name.value)->Some_0->Ty_0->Poly_1)->Struct_2
                != (look_type(e2, sd2.value.name.value.name.value)->Some_0->Ty_0->Poly_1)->Struct_2
        }),
{
    law_struct_binding(sd1, env);
    law_struct_uses_one_identity(sd1, env);
    law_struct_binding(sd2, struct_spec(sd1, env).1);
}

/// After a type alias without type parameters, the alias stands for the
/// type it was declared as.
pub proof fn law_alias_read_back(a: Spanned<TyAlias>, env: EnvV, id: Spanned<Symbol>, span: Span)
    requires
        a.value.ident.value.type_params@.len() == 0,
        id.value == a.value.ident.value.name.value,
        ty_spec(a.value.ty, env).0 is Done,
        ty_spec(a.value.ty, env).0->Done_0 !is Poly,
    ensures
        alias_spec(a, env).0 is Done,
        ty_spec(Spanned { value: Ty::Simple(id), span }, alias_spec(a, env).1) == (
            ty_spec(a.value.ty, env).0,
            Seq::<Diagnostic<VType>>::empty(),
        ),
{
    law_lookup_after_add(env, id.value, VType::Nil, VEntry::Ty(ty_spec(a.value.ty, env).0->Done_0));
}

/// After `let x = e;`, the variable `x` has the type of `e`.
pub proof fn law_let_read_back(
    s: Spanned<Statement>,
    ident: Spanned<Symbol>,
    e: Spanned<Expression>,
    env: EnvV,
    x: Spanned<Var>,
)
    requires
        s.value == (Statement::Let { ident, ty: None, expr: Some(e) }),
        expr_spec(e, env).0 is Done,
        x.value matches Var::Simple(id) && id.value == ident.value,
    ensures
        stmt_spec(s, env).0 == Outcome::Done(VType::Nil),
        var_spec(x, stmt_spec(s, env).1) == (expr_spec(e, env).0, Seq::<Diagnostic<VType>>::empty()),
{
    law_lookup_after_add(env, ident.value, expr_spec(e, env).0->Done_0, VEntry::Ty(VType::Nil));
}

/// A type binding is well formed when a polymorphic type in it is a struct.
pub open spec fn entry_well_formed(e: VEntry) -> bool {
    match e {
        VEntry::Ty(VType::Poly(_, inner)) => *inner is Struct,
        _ => true,
    }
}

/// Every binding of the type namespace is well formed.
pub open spec fn types_well_formed(env: EnvV) -> bool {
    forall|k: int| 0 <= k < env.types.bindings.len() ==> entry_well_formed(#[trigger] env.types.bindings[k].1)
}

/// No name in a written type, used without arguments, stands for a type
/// constructor.
pub open spec fn no_bare_constructor(t: Spanned<Ty>, env: EnvV) -> bool
    decreases t, 0nat,
{
    match t.value {
        Ty::Simple(id) => !(look_type(env, id.value) matches Some(VEntry::TyCon(_))),
        Ty::Poly(_, args) => forall|k: int| 0 <= k < args@.len() ==> no_bare_constructor(#[trigger] args@[k], env),
        Ty::Func(ps, r) => {
            &&& forall|k: int| 0 <= k < ps@.len() ==> no_bare_constructor(#[trigger] ps@[k], env)
            &&& match r {
                Some(x) => no_bare_constructor(*x, env),
                None => true,
            }
        },
        _ => true,
    }
}

proof fn lemma_lookup_well_formed(bs: Seq<(Symbol, VEntry)>, s: Symbol)
    requires
        forall|k: int| 0 <= k < bs.len() ==> entry_well_formed(#[trigger] bs[k].1),
    ensures
        lookup(bs, s) matches Some(e) ==> entry_well_formed(e),
    decreases bs.len(),
{
    if bs.len() > 0 && bs.last().0 != s {
        let d = bs.drop_last();
        assert forall|k: int| 0 <= k < d.len() implies entry_well_formed(#[trigger] d[k].1) by {
            assert(d[k] == bs[k]);
        }
        lemma_lookup_well_formed(d, s);
    } else if bs.len() > 0 {
        assert(entry_well_formed(bs[bs.len() - 1].1));
    }
}

/// In a well-formed environment, translating a written type gets stuck only
/// at a type constructor named without arguments, and never yields a
/// polymorphic type.
pub proof fn law_types_not_stuck(t: Spanned<Ty>, env: EnvV)
    requires
        types_well_formed(env),
        no_bare_constructor(t, env),
    ensures
        ty_spec(t, env).0 !is Stuck,
        ty_spec(t, env).0 matches Outcome::Done(x) ==> x !is Poly,
    decreases t, 0nat,
{
    match t.value {
        Ty::Simple(id) => lemma_lookup_well_formed(env.types.bindings, id.value),
        Ty::Poly(id, args) => {
            lemma_lookup_well_formed(env.types.bindings, id.value);
            match look_type(env, id.value) {
                Some(VEntry::Ty(VType::Poly(tvs, _))) => {
                    lemma_ty_list_not_stuck(args@, 0, if tvs.len() <= args@.len() { tvs.len() as int } else { args@.len() as int }, env);
                },
                _ => {},
            }
        },
        Ty::Func(ps, r) => {
            lemma_ty_list_not_stuck(ps@, 0, ps@.len() as int, env);
            match r {
                Some(x) => law_types_not_stuck(*x, env),
                None => {},
            }
        },
        _ => {},
    }
}

proof fn lemma_ty_list_not_stuck(ts: Seq<Spanned<Ty>>, i: int, n: int, env: EnvV)
    requires
        types_well_formed(env),
        forall|k: int| 0 <= k < ts.len() ==> no_bare_constructor(#[trigger] ts[k], env),
    ensures
        ty_list_spec(ts, i, n, env).0 !is Stuck,
    decreases ts, n - i,
{
    if 0 <= i < n && i < ts.len() {
        law_types_not_stuck(ts[i], env);
        lemma_ty_list_not_stuck(ts, i + 1, n, env);
    }
}

proof fn lemma_add_type_well_formed(env: EnvV, s: Symbol, e: VEntry)
    requires
        types_well_formed(env),
        entry_well_formed(e),
    ensures
        types_well_formed(add_type(env, s, e)),
{
    assert forall|k: int| 0 <= k < add_type(env, s, e).types.bindings.len() implies entry_well_formed(
        #[trigger] add_type(env, s, e).types.bindings[k].1,
    ) by {
        if k < env.types.bindings.len() {
            assert(add_type(env, s, e).types.bindings[k] == env.types.bindings[k]);
        }
    }
}

proof fn lemma_bind_type_params_well_formed(env: EnvV, ps: Seq<Spanned<Symbol>>)
    requires
        types_well_formed(env),
    ensures
        types_well_formed(bind_type_params(env, ps)),
{
    let b = bind_type_params(env, ps).types.bindings;
    assert forall|k: int| 0 <= k < b.len() implies entry_well_formed(#[trigger] b[k].1) by {
        if k < env.types.bindings.len() {
            assert(b[k] == env.types.bindings[k]);
        }
    }
}

/// Declaring a struct keeps the type namespace well formed.
pub proof fn law_struct_keeps_well_formed(sd: Spanned<Struct>, env: EnvV)
    requires
        types_well_formed(env),
    ensures
        types_well_formed(struct_spec(sd, env).1),
{
    let ps = sd.value.name.value.type_params@;
    let name = sd.value.name.value.name.value;
    let env1 = bind_type_params(env, ps);
    lemma_bind_type_params_well_formed(env, ps);
    let env2 = EnvV { next_unique: (env1.next_unique + 1) as u32, ..env1 };
    let u = Unique(env1.next_unique);
    let vs = fresh_vars(env.next_tyvar, ps.len());
    let env3 = add_type(env2, name, VEntry::Ty(VType::Poly(vs, Box::new(VType::Struct(name, seq![], u)))));
    lemma_add_type_well_formed(env2, name, VEntry::Ty(VType::Poly(vs, Box::new(VType::Struct(name, seq![], u)))));
    let fs = sd.value.fields.value@;
    match ty_list_spec(field_decl_tys(fs), 0, fs.len() as int, env3).0 {
        Outcome::Done(ts) => {
            lemma_add_type_well_formed(
                env3,
                name,
                VEntry::Ty(VType::Poly(vs, Box::new(VType::Struct(name, name_fields(fs, ts), u)))),
            );
        },
        _ => {},
    }
}

/// Declaring a type alias keeps the type namespace well formed.
pub proof fn law_alias_keeps_well_formed(a: Spanned<TyAlias>, env: EnvV)
    requires
        types_well_formed(env),
        no_bare_constructor(a.value.ty, bind_type_params(env, a.value.ident.value.type_params@)),
    ensures
        types_well_formed(alias_spec(a, env).1),
{
    let ps = a.value.ident.value.type_params@;
    let name = a.value.ident.value.name.value;
    if ps.len() == 0 {
        assert(bind_type_params(env, ps).types.bindings =~= env.types.bindings);
        assert(bind_type_params(env, ps).types =~= env.types);
        law_types_not_stuck(a.value.ty, env);
        match ty_spec(a.value.ty, env).0 {
            Outcome::Done(t) => lemma_add_type_well_formed(env, name, VEntry::Ty(t)),
            _ => {},
        }
    } else {
        let env1 = bind_type_params(env, ps);
        lemma_bind_type_params_well_formed(env, ps);
        match ty_spec(a.value.ty, env1).0 {
            Outcome::Done(t) => {
                let vs = fresh_vars(env.next_tyvar, ps.len());
                lemma_add_type_well_formed(env1, name, VEntry::TyCon(VTyCon::Fun(vs, Box::new(t))));
            },
            _ => {},
        }
    }
}

/// Checking a statement leaves the type namespace as it was.
pub proof fn law_statement_keeps_types(s: Spanned<Statement>, env: EnvV)
    ensures
        stmt_spec(s, env).1.types == env.types,
{
    law_statement_only_adds_vars(s, env);
}

/// Declaring a function keeps the type namespace well formed.
pub proof fn law_function_keeps_well_formed(f: Spanned<Function>, env: EnvV)
    requires
        types_well_formed(env),
    ensures
        types_well_formed(function_spec(f, env).1),
{
    let ps = f.value.name.value.type_params@;
    let env1 = bind_type_params(env, ps);
    lemma_bind_type_params_well_formed(env, ps);
    if function_spec(f, env).0 is Done {
        law_function_scope(f, env);
    } else {
        let name = f.value.name.value.name.value;
        let ret = match f.value.return_ty {
            Some(rt) => ty_spec(rt, env1).0->Done_0,
            None => VType::Nil,
        };
        let params = f.value.params.value@;
        let pts = ty_list_spec(param_tys(params), 0, params.len() as int, env1).0->Done_0;
        let env2 = add_var(env1, name, VType::Poly(fresh_vars(env.next_tyvar, ps.len()), Box::new(VType::App(VTyCon::Arrow, pts.push(ret)))));
        let env3 = bind_params(begin_scope(env2), params, pts.push(ret));
        law_statement_only_adds_vars(f.value.body, env3);
    }
}

// ---------------------------------------------------------------- diagnostics and dependencies

/// Translating a written type reports nothing when it succeeds and at least
/// one error when it fails.
pub proof fn law_ty_diagnostics(t: Spanned<Ty>, env: EnvV)
    ensures
        ty_spec(t, env).0 is Done ==> ty_spec(t, env).1.len() == 0,
        ty_spec(t, env).0 is Error ==> ty_spec(t, env).1.len() > 0,
    decreases t, 0nat,
{
    match t.value {
        Ty::Poly(id, args) => match look_type(env, id.value) {
            Some(VEntry::Ty(VType::Poly(tvs, _))) => {
                lemma_ty_list_diagnostics(args@, 0, min(tvs.len() as int, args@.len() as int), env);
            },
            _ => {},
        },
        Ty::Func(ps, r) => {
            lemma_ty_list_diagnostics(ps@, 0, ps@.len() as int, env);
            match r {
                Some(x) => law_ty_diagnostics(*x, env),
                None => {},
            }
        },
        _ => {},
    }
}

proof fn lemma_ty_list_diagnostics(ts: Seq<Spanned<Ty>>, i: int, n: int, env: EnvV)
    ensures
        ty_list_spec(ts, i, n, env).0 is Done ==> ty_list_spec(ts, i, n, env).1.len() == 0,
        ty_list_spec(ts, i, n, env).0 is Error ==> ty_list_spec(ts, i, n, env).1.len() > 0,
    decreases ts, n - i,
{
    if 0 <= i < n && i < ts.len() {
        law_ty_diagnostics(ts[i], env);
        lemma_ty_list_diagnostics(ts, i + 1, n, env);
    }
}

/// What a written type stands for depends on the type bindings alone: two
/// environments with the same type bindings give the same outcome and the
/// same diagnostics.
pub proof fn law_ty_depends_on_types(t: Spanned<Ty>, env1: EnvV, env2: EnvV)
    requires
        env1.types.bindings == env2.types.bindings,
    ensures
        ty_spec(t, env1) == ty_spec(t, env2),
    decreases t, 0nat,
{
    match t.value {
        Ty::Poly(id, args) => match look_type(env1, id.value) {
            Some(VEntry::Ty(VType::Poly(tvs, _))) => {
                lemma_ty_list_depends_on_types(args@, 0, min(tvs.len() as int, args@.len() as int), env1, env2);
            },
            _ => {},
        },
        Ty::Func(ps, r) => {
            lemma_ty_list_depends_on_types(ps@, 0, ps@.len() as int, env1, env2);
            match r {
                Some(x) => law_ty_depends_on_types(*x, env1, env2),
                None => {},
            }
        },
        _ => {},
    }
}

proof fn lemma_ty_list_depends_on_types(ts: Seq<Spanned<Ty>>, i: int, n: int, env1: EnvV, env2: EnvV)
    requires
        env1.types.bindings == env2.types.bindings,
    ensures
        ty_list_spec(ts, i, n, env1) == ty_list_spec(ts, i, n, env2),
    decreases ts, n - i,
{
    if 0 <= i < n && i < ts.len() {
        law_ty_depends_on_types(ts[i], env1, env2);
        lemma_ty_list_depends_on_types(ts, i + 1, n, env1, env2);
    }
}

/// A type binding whose polymorphic type does not wrap another polymorphic
/// type.
pub open spec fn no_nested_poly(e: VEntry) -> bool {
    match e {
        VEntry::Ty(VType::Poly(_, inner)) => *inner !is Poly,
        _ => true,
    }
}

proof fn lemma_lookup_no_nested_poly(bs: Seq<(Symbol, VEntry)>, s: Symbol)
    requires
        forall|k: int| 0 <= k < bs.len() ==> no_nested_poly(#[trigger] bs[k].1),
    ensures
        lookup(bs, s) matches Some(e) ==> no_nested_poly(e),
    decreases bs.len(),
{
    if bs.len() > 0 && bs.last().0 != s {
        let d = bs.drop_last();
        assert forall|k: int| 0 <= k < d.len() implies no_nested_poly(#[trigger] d[k].1) by {
            assert(d[k] == bs[k]);
        }
        lemma_lookup_no_nested_poly(d, s);
    } else if bs.len() > 0 {
        assert(no_nested_poly(bs[bs.len() - 1].1));
    }
}

/// A written type never stands for a polymorphic type, as long as no type
/// binding is a polymorphic type wrapping another.
pub proof fn law_ty_never_polymorphic(t: Spanned<Ty>, env: EnvV)
    requires
        forall|k: int| 0 <= k < env.types.bindings.len() ==> no_nested_poly(#[trigger] env.types.bindings[k].1),
    ensures
        ty_spec(t, env).0 matches Outcome::Done(x) ==> x !is Poly,
{
    match t.value {
        Ty::Simple(id) => lemma_lookup_no_nested_poly(env.types.bindings, id.value),
        _ => {},
    }
}

/// A type alias without type parameters stands for the type it was
/// declared as in every later environment in which its name is still bound
/// as the declaration left it.
pub proof fn law_alias_transparent(a: Spanned<TyAlias>, env: EnvV, later: EnvV, id: Spanned<Symbol>, span: Span)
    requires
        a.value.ident.value.type_params@.len() == 0,
        id.value == a.value.ident.value.name.value,
        ty_spec(a.value.ty, env).0 is Done,
        ty_spec(a.value.ty, env).0->Done_0 !is Poly,
        look_type(later, id.value) == look_type(alias_spec(a, env).1, id.value),
    ensures
        ty_spec(Spanned { value: Ty::Simple(id), span }, later) == (
            ty_spec(a.value.ty, env).0,
            Seq::<Diagnostic<VType>>::empty(),
        ),
{
    law_alias_read_back(a, env, id, span);
}

/// Only struct declarations hand out struct identities: statements, type
/// aliases and functions leave the supply as it was.
pub proof fn law_identities_only_from_structs(s: Spanned<Statement>, a: Spanned<TyAlias>, f: Spanned<Function>, env: EnvV)
    ensures
        stmt_spec(s, env).1.next_unique == env.next_unique,
        alias_spec(a, env).1.next_unique == env.next_unique,
        function_spec(f, env).1.next_unique == env.next_unique,
{
    law_statement_only_adds_vars(s, env);
    let ps = f.value.name.value.type_params@;
    let env1 = bind_type_params(env, ps);
    let name = f.value.name.value.name.value;
    let params = f.value.params.value@;
    let rr: (Outcome<VType>, Seq<Diagnostic<VType>>) = match f.value.return_ty {
        Some(rt) => ty_spec(rt, env1),
        None => (Outcome::Done(VType::Nil), Seq::empty()),
    };
    if rr.0 is Done {
        let pr = ty_list_spec(param_tys(params), 0, params.len() as int, env1);
        if pr.0 is Done {
            let all = pr.0->Done_0.push(rr.0->Done_0);
            let env2 = add_var(env1, name, VType::Poly(fresh_vars(env.next_tyvar, ps.len()), Box::new(VType::App(VTyCon::Arrow, all))));
            let env3 = bind_params(begin_scope(env2), params, all);
            law_statement_only_adds_vars(f.value.body, env3);
        }
    }
}

/// Along the history of one environment, a struct declared after an
/// earlier struct declaration (the supply of identities has not gone back)
/// gets an identity different from the earlier struct's. Environments made
/// apart from one another share no supply, and nothing is promised of
/// identities across them.
pub proof fn law_struct_identities_differ_later(
    sd1: Spanned<Struct>,
    env1: EnvV,
    sd2: Spanned<Struct>,
    env2: EnvV,
)
    requires
        env1.next_unique < u32::MAX,
        struct_spec(sd1, env1).0 is Done,
        struct_spec(sd2, env2).0 is Done,
        env2.next_unique >= struct_spec(sd1, env1).1.next_unique,
    ensures
        (look_type(struct_spec(sd1, env1).1, sd1.value.name.value.name.value)->Some_0->Ty_0->Poly_1)->Struct_2
            != (look_type(struct_spec(sd2, env2).1, sd2.value.name.value.name.value)->Some_0->Ty_0->Poly_1)->Struct_2,
{
    law_struct_binding(sd1, env1);
    law_struct_uses_one_identity(sd1, env1);
    law_struct_binding(sd2, env2);
}

/// Looking up a plain variable or a field reports nothing when it succeeds
/// and exactly one error when it fails; it never gets stuck.
pub proof fn law_var_diagnostics(v: Spanned<Var>, env: EnvV)
    requires
        v.value is Simple || v.value is Field,
    ensures
        var_spec(v, env).0 !is Stuck,
        var_spec(v, env).0 is Done ==> var_spec(v, env).1.len() == 0,
        var_spec(v, env).0 is Error ==> var_spec(v, env).1.len() == 1,
{
}

} // verus!
