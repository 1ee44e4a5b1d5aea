use vstd::prelude::*;
use crate::cast_check::cast_check;
use crate::env::{Entry, Env, VEntry};
use crate::infer::{subst_type, subst_types, Infer, InferResult, Subst};
use crate::report::{ErrorKind, Reporter};
use crate::syntax::{Span, Call, Expression, Function, FunctionParam, Statement, Struct, StructField, TyAlias, Literal, Op, Spanned, StructLit, StructLitField, Ty, UnaryOp, Var};
use crate::types::{clone_tyvars, clone_types, TypeVar, lemma_view_arrow, lemma_view_string, view_fields, view_type, view_types, Field, Sign, Size, Symbol, TyCon, Type, Unique, VTyCon, VType};
use crate::typing::{
    alias_spec, bind_params, bind_type_params, field_decl_tys, fresh_vars, function_spec, name_fields, param_tys, struct_spec,
    arg_spans, block_spec, cond_spec, incr_spec, bool_type, stmt_spec, call_spec, expr_list_spec, expr_spec, field_exprs_spec, field_type, inst_args_spec, int_type,
    empty, lit_fields_spec, lit_result, literal_type, string_type, struct_lit_spec, ty_list_spec, ty_spec, unify_pairs, var_spec, Outcome,
};

verus! {



/// Whether a result is the one an outcome describes.
pub open spec fn matches_type(r: InferResult<Type>, o: Outcome<VType>) -> bool {
    match o {
        Outcome::Done(t) => r matches Ok(x) && x@ == t,
        Outcome::Error => r is Err,
        Outcome::Stuck => false,
    }
}

pub open spec fn matches_types(r: InferResult<Vec<Type>>, o: Outcome<Seq<VType>>) -> bool {
    match o {
        Outcome::Done(ts) => r matches Ok(x) && view_types(x@) == ts,
        Outcome::Error => r is Err,
        Outcome::Stuck => false,
    }
}

pub open spec fn matches_unit<T>(r: InferResult<T>, o: Outcome<()>) -> bool {
    match o {
        Outcome::Done(_) => r is Ok,
        Outcome::Error => r is Err,
        Outcome::Stuck => false,
    }
}

fn prim(c: TyCon) -> (t: Type)
    ensures
        t@ == VType::App(c@, seq![]),
{
    let ts: Vec<Type> = Vec::new();
    assert(view_types(ts@) =~= seq![]);
    Type::App(c, ts)
}

fn bool_ty() -> (t: Type)
    ensures
        t@ == bool_type(),
{
    let c = TyCon::Bool;
    assert(c@ == VTyCon::Bool);
    prim(c)
}

fn string_ty() -> (t: Type)
    ensures
        t@ == string_type(),
{
    let c = TyCon::String;
    assert(c@ == VTyCon::String);
    prim(c)
}

fn void_ty() -> (t: Type)
    ensures
        t@ == VType::App(VTyCon::Void, seq![]),
{
    let c = TyCon::Void;
    assert(c@ == VTyCon::Void);
    prim(c)
}

fn int_ty(s: Sign, z: Size) -> (t: Type)
    ensures
        t@ == int_type(s, z),
{
    let c = TyCon::Int(s, z);
    assert(c@ == VTyCon::Int(s, z));
    prim(c)
}

fn entry_of(env: &Env, s: crate::types::Symbol) -> (r: Option<Entry>)
    ensures
        match r {
            Some(e) => crate::env::look_type(env@, s) == Some(e@),
            None => crate::env::look_type(env@, s) is None,
        },
{
    match env.look_type(s) {
        Some(e) => Some(e.deep_clone()),
        None => None,
    }
}

impl Infer {
    /// Translates a written type into the type it stands for.
    pub fn trans_ty(&self, ty: &Spanned<Ty>, env: &mut Env, reporter: &mut Reporter) -> (r: InferResult<Type>)
        requires
            ty_spec(*ty, old(env)@).0 !is Stuck,
        ensures
            *final(env) == *old(env),
            final(reporter)@ == old(reporter)@ + ty_spec(*ty, old(env)@).1,
            matches_type(r, ty_spec(*ty, old(env)@).0),
        decreases ty, 0nat,
    {
        match &ty.value {
            Ty::Bool => Ok(bool_ty()),
            Ty::Str => Ok(string_ty()),
            Ty::Nil => Ok(void_ty()),
            Ty::U8 => Ok(int_ty(Sign::Unsigned, Size::Bit8)),
            Ty::I8 => Ok(int_ty(Sign::Signed, Size::Bit8)),
            Ty::U32 => Ok(int_ty(Sign::Unsigned, Size::Bit32)),
            Ty::I32 => Ok(int_ty(Sign::Signed, Size::Bit32)),
            Ty::U64 => Ok(int_ty(Sign::Unsigned, Size::Bit64)),
            Ty::I64 => Ok(int_ty(Sign::Signed, Size::Bit64)),
            Ty::Simple(ident) => match entry_of(env, ident.value) {
                Some(Entry::Ty(Type::Poly(tvars, ret))) => {
                    if tvars.len() != 0 {
                        reporter.error(ErrorKind::PolyMissingArgs(ident.value), ident.span);
                        Err(())
                    } else {
                        Ok(*ret)
                    }
                },
                Some(Entry::Ty(t)) => Ok(t),
                Some(Entry::TyCon(_)) => {
                    // A type constructor named without arguments: the
                    // judgement is stuck, which the precondition rules out.
                    assert(ty_spec(*ty, old(env)@).0 is Stuck);
                    Err(())
                },
                None => {
                    reporter.error(ErrorKind::UndefinedType(ident.value), ident.span);
                    Err(())
                },
            },
            Ty::Poly(ident, types) => match entry_of(env, ident.value) {
                Some(Entry::Ty(Type::Poly(tvars, inner))) => match &*inner {
                    Type::Struct(n, fields, unique) => {
                        assert(view_type(*inner) == VType::Struct(*n, view_fields(fields@), *unique));
                        if tvars.len() == 0 {
                            reporter.error(ErrorKind::NotPolymorphic(ident.value), ident.span);
                            return Err(());
                        }
                        let k = if tvars.len() <= types.len() { tvars.len() } else { types.len() };
                        let tys = self.trans_ty_list(types, 0, k, env, reporter)?;
                        let mappings = Subst::zip(&tvars, &tys);
                        let fields = self.subst_field_list(fields, &mappings);
                        Ok(Type::Struct(ident.value, fields, *unique))
                    },
                    _ => {
                        // Polymorphic type entries hold structs; the
                        // precondition rules out any other.
                        assert(view_type(*inner) !is Struct);
                        Err(())
                    },
                },
                None => {
                    reporter.error(ErrorKind::UndefinedType(ident.value), ident.span);
                    Err(())
                },
                Some(_) => {
                    reporter.error(ErrorKind::NotPolymorphic(ident.value), ident.span);
                    Err(())
                },
            },
            Ty::Func(params, result) => {
                let mut tys = self.trans_ty_list(params, 0, params.len(), env, reporter)?;
                let ret = match result {
                    Some(rt) => self.trans_ty(rt, env, reporter)?,
                    None => Type::Nil,
                };
                let ghost before = tys@;
                tys.push(ret);
                assert(view_types(tys@) =~= view_types(before).push(ret@));
                let arrow = TyCon::Arrow;
                assert(arrow@ == VTyCon::Arrow);
                let r = Type::App(arrow, tys);
                assert(r@ == VType::App(VTyCon::Arrow, view_types(tys@)));
                Ok(r)
            },
        }
    }

    /// Translates the types `ts[i..n]`, stopping at the first failure.
    fn trans_ty_list(
        &self,
        ts: &Vec<Spanned<Ty>>,
        i: usize,
        n: usize,
        env: &mut Env,
        reporter: &mut Reporter,
    ) -> (r: InferResult<Vec<Type>>)
        requires
            ty_list_spec(ts@, i as int, n as int, old(env)@).0 !is Stuck,
        ensures
            *final(env) == *old(env),
            final(reporter)@ == old(reporter)@ + ty_list_spec(ts@, i as int, n as int, old(env)@).1,
            matches_types(r, ty_list_spec(ts@, i as int, n as int, old(env)@).0),
        decreases ts, n - i,
    {
        if i >= n || i >= ts.len() {
            let r: Vec<Type> = Vec::new();
            assert(view_types(r@) =~= seq![]);
            assert(old(reporter)@ + Seq::empty() =~= old(reporter)@);
            return Ok(r);
        }
        assert(decreases_to!(ts => ts@[i as int]));
        let ghost r0 = reporter@;
        let t = self.trans_ty(&ts[i], env, reporter)?;
        let ghost r1 = reporter@;
        let mut rest = self.trans_ty_list(ts, i + 1, n, env, reporter)?;
        let ghost before = rest@;
        rest.insert(0, t);
        assert(view_types(rest@) =~= seq![t@] + view_types(before));
        assert(reporter@ =~= old(reporter)@ + ty_list_spec(ts@, i as int, n as int, old(env)@).1);
        Ok(rest)
    }
}

pub open spec fn matches_walk(
    r: InferResult<(bool, Vec<Field>)>,
    o: Outcome<(bool, Seq<(Symbol, VType)>)>,
) -> bool {
    match o {
        Outcome::Done(p) => r matches Ok(x) && x.0 == p.0 && view_fields(x.1@) == p.1,
        Outcome::Error => r is Err,
        Outcome::Stuck => false,
    }
}

fn literal_ty(l: &Literal) -> (t: Type)
    ensures
        t@ == literal_type(*l),
{
    match l {
        Literal::Char(_) => int_ty(Sign::Unsigned, Size::Bit8),
        Literal::True(_) => bool_ty(),
        Literal::False(_) => bool_ty(),
        Literal::Str(_) => string_ty(),
        Literal::Number(n) => match n.ty {
            Some((s, z)) => int_ty(s, z),
            None => int_ty(Sign::Signed, Size::Bit32),
        },
        Literal::Nil => void_ty(),
    }
}

/// The type of the first field named `name`.
fn find_field(fs: &Vec<Field>, name: Symbol) -> (r: Option<Type>)
    ensures
        match r {
            Some(t) => field_type(view_fields(fs@), name, 0) == Some(t@),
            None => field_type(view_fields(fs@), name, 0) is None,
        },
{
    let ghost v = view_fields(fs@);
    let mut i: usize = 0;
    while i < fs.len()
        invariant
            v == view_fields(fs@),
            i <= fs.len(),
            field_type(v, name, 0) == field_type(v, name, i as int),
        decreases fs.len() - i,
    {
        if fs[i].name == name {
            return Some(fs[i].ty.deep_clone());
        }
        i = i + 1;
    }
    None
}

impl Infer {
    /// Checks an expression and gives its type; an expression never binds a
    /// name, so the environment is left as it was.
    pub fn trans_expr(&self, expr: &Spanned<Expression>, env: &mut Env, reporter: &mut Reporter) -> (r: InferResult<Type>)
        requires
            expr_spec(*expr, old(env)@).0 !is Stuck,
        ensures
            *final(env) == *old(env),
            final(reporter)@ == old(reporter)@ + expr_spec(*expr, old(env)@).1,
            matches_type(r, expr_spec(*expr, old(env)@).0),
        decreases expr, 0nat,
    {
        match &expr.value {
            Expression::Assign { name, value } => {
                let name_ty = self.trans_var(name, env, reporter)?;
                let value_ty = self.trans_expr(value, env, reporter)?;
                self.unify(&name_ty, &value_ty, reporter, expr.span, env)?;
                Ok(value_ty)
            },
            Expression::Binary { lhs, op, rhs } => {
                let lhs_ty = self.trans_expr(lhs, env, reporter)?;
                let rhs_ty = self.trans_expr(rhs, env, reporter)?;
                match op.value {
                    Op::NEq | Op::Equal => Ok(bool_ty()),
                    Op::LT | Op::LTE | Op::GT | Op::GTE | Op::And | Op::Or => {
                        self.unify(&lhs_ty, &rhs_ty, reporter, expr.span, env)?;
                        Ok(bool_ty())
                    },
                    Op::Plus | Op::Slash | Op::Star | Op::Minus => {
                        match self.unify(&lhs_ty, &rhs_ty, reporter, expr.span, env) {
                            Ok(()) => {},
                            Err(_) => {
                                let s = string_ty();
                                self.unify(&lhs_ty, &s, reporter, expr.span, env)?;
                            },
                        }
                        Ok(lhs_ty)
                    },
                }
            },
            Expression::Cast { from, to } => {
                let expr_ty = self.trans_expr(from, env, reporter)?;
                let ty = self.trans_ty(to, env, reporter)?;
                match cast_check(&expr_ty, &ty) {
                    Ok(()) => Ok(ty),
                    Err(_) => {
                        reporter.error(ErrorKind::CannotCast(expr_ty, ty), expr.span);
                        Err(())
                    },
                }
            },
            Expression::Call(call) => self.trans_call(call, env, reporter),
            Expression::Grouping { expr: inner } => self.trans_expr(inner, env, reporter),
            Expression::Literal(literal) => Ok(literal_ty(literal)),
            Expression::StructLit(struct_lit) => self.trans_struct_lit(struct_lit, env, reporter),
            Expression::Unary { op, expr: inner } => {
                let expr_ty = self.trans_expr(inner, env, reporter)?;
                match op.value {
                    UnaryOp::Bang => Ok(bool_ty()),
                    UnaryOp::Minus => {
                        if !expr_ty.is_int() {
                            reporter.error(ErrorKind::NegateNonInt(expr_ty), inner.span);
                            return Err(());
                        }
                        Ok(expr_ty)
                    },
                }
            },
            Expression::Var(var) => self.trans_var(var, env, reporter),
        }
    }

    /// The types of `es[i..n]`, stopping at the first failure.
    fn trans_expr_list(
        &self,
        es: &Vec<Spanned<Expression>>,
        i: usize,
        n: usize,
        env: &mut Env,
        reporter: &mut Reporter,
    ) -> (r: InferResult<Vec<Type>>)
        requires
            expr_list_spec(es@, i as int, n as int, old(env)@).0 !is Stuck,
        ensures
            *final(env) == *old(env),
            final(reporter)@ == old(reporter)@ + expr_list_spec(es@, i as int, n as int, old(env)@).1,
            matches_types(r, expr_list_spec(es@, i as int, n as int, old(env)@).0),
        decreases es, n - i,
    {
        if i >= n || i >= es.len() {
            let r: Vec<Type> = Vec::new();
            assert(view_types(r@) =~= seq![]);
            return Ok(r);
        }
        assert(decreases_to!(es => es@[i as int]));
        let t = self.trans_expr(&es[i], env, reporter)?;
        let mut rest = self.trans_expr_list(es, i + 1, n, env, reporter)?;
        let ghost before = rest@;
        rest.insert(0, t);
        assert(view_types(rest@) =~= seq![t@] + view_types(before));
        Ok(rest)
    }

    /// The types of the expressions of `fs[i..n]`, stopping at the first failure.
    fn trans_field_exprs(
        &self,
        fs: &Vec<Spanned<StructLitField>>,
        i: usize,
        n: usize,
        env: &mut Env,
        reporter: &mut Reporter,
    ) -> (r: InferResult<Vec<Type>>)
        requires
            field_exprs_spec(fs@, i as int, n as int, old(env)@).0 !is Stuck,
        ensures
            *final(env) == *old(env),
            final(reporter)@ == old(reporter)@ + field_exprs_spec(fs@, i as int, n as int, old(env)@).1,
            matches_types(r, field_exprs_spec(fs@, i as int, n as int, old(env)@).0),
        decreases fs, n - i,
    {
        if i >= n || i >= fs.len() {
            let r: Vec<Type> = Vec::new();
            assert(view_types(r@) =~= seq![]);
            return Ok(r);
        }
        assert(decreases_to!(fs => fs@[i as int].value.expr));
        let t = self.trans_expr(&fs[i].value.expr, env, reporter)?;
        let mut rest = self.trans_field_exprs(fs, i + 1, n, env, reporter)?;
        let ghost before = rest@;
        rest.insert(0, t);
        assert(view_types(rest@) =~= seq![t@] + view_types(before));
        Ok(rest)
    }

    /// Unifies each argument type with the parameter type at its position,
    /// both under `mappings`, stopping at the first failure.
    fn unify_args(
        &self,
        arg_tys: &Vec<Type>,
        fn_types: &Vec<Type>,
        args: &Vec<Spanned<Expression>>,
        mappings: &Subst,
        env: &mut Env,
        reporter: &mut Reporter,
    ) -> (r: InferResult<()>)
        ensures
            *final(env) == *old(env),
            final(reporter)@ == old(reporter)@ + unify_pairs(
                subst_types(view_types(arg_tys@), mappings@),
                subst_types(view_types(fn_types@), mappings@),
                arg_spans(args@),
                0,
            ).1,
            matches_unit(r, unify_pairs(
                subst_types(view_types(arg_tys@), mappings@),
                subst_types(view_types(fn_types@), mappings@),
                arg_spans(args@),
                0,
            ).0),
    {
        let ghost xs = subst_types(view_types(arg_tys@), mappings@);
        let ghost ys = subst_types(view_types(fn_types@), mappings@);
        let ghost sp = arg_spans(args@);
        let mut j: usize = 0;
        while j < arg_tys.len() && j < fn_types.len() && j < args.len()
            invariant
                xs == subst_types(view_types(arg_tys@), mappings@),
                ys == subst_types(view_types(fn_types@), mappings@),
                sp == arg_spans(args@),
                *env == *old(env),
                reporter@ == old(reporter)@,
                unify_pairs(xs, ys, sp, 0) == unify_pairs(xs, ys, sp, j as int),
            decreases arg_tys.len() - j,
        {
            let a = self.subst(&arg_tys[j], mappings);
            let f = self.subst(&fn_types[j], mappings);
            self.unify(&a, &f, reporter, args[j].span, env)?;
            j = j + 1;
        }
        Ok(())
    }

    fn trans_call(&self, call: &Spanned<Call>, env: &mut Env, reporter: &mut Reporter) -> (r: InferResult<Type>)
        requires
            call_spec(*call, old(env)@).0 !is Stuck,
        ensures
            *final(env) == *old(env),
            final(reporter)@ == old(reporter)@ + call_spec(*call, old(env)@).1,
            matches_type(r, call_spec(*call, old(env)@).0),
        decreases call, 0nat,
    {
        match &call.value {
            Call::Simple { callee, args } => {
                let func = match env.look_var(callee.value) {
                    Some(func) => func.deep_clone(),
                    None => {
                        reporter.error(ErrorKind::UndefinedFunction(callee.value), callee.span);
                        return Err(());
                    },
                };
                match func {
                    Type::Poly(tvars, ret) => match &*ret {
                        Type::App(TyCon::Arrow, fn_types) => {
                            assert(view_type(*ret) == VType::App(VTyCon::Arrow, view_types(fn_types@)));
                            if fn_types.len() == 0 {
                                // An arrow always ends with the return type;
                                // the precondition rules out an empty one.
                                return Err(());
                            }
                            if fn_types.len() - 1 != args.len() {
                                reporter.error(
                                    ErrorKind::ArgCount { expected: fn_types.len() - 1, found: args.len() },
                                    call.span,
                                );
                                return Err(());
                            }
                            let n = if tvars.len() <= args.len() { tvars.len() } else { args.len() };
                            let arg_tys = self.trans_expr_list(args, 0, n, env, reporter)?;
                            let mappings = Subst::zip(&tvars, &arg_tys);
                            self.unify_args(&arg_tys, fn_types, args, &mappings, env, reporter)?;
                            Ok(self.subst(&fn_types[fn_types.len() - 1], &mappings))
                        },
                        _ => {
                            // Only functions are polymorphic values; the
                            // precondition rules out any other.
                            proof {
                                lemma_view_arrow(*ret);
                            }
                            Err(())
                        },
                    },
                    _ => {
                        reporter.error(ErrorKind::NotCallable(callee.value), callee.span);
                        Err(())
                    },
                }
            },
            Call::Instantiation { callee, tys, args } => {
                let func = match env.look_var(callee.value) {
                    Some(func) => func.deep_clone(),
                    None => {
                        reporter.error(ErrorKind::UndefinedFunction(callee.value), callee.span);
                        return Err(());
                    },
                };
                match func {
                    Type::Poly(tvars, ret) => {
                        if tvars.len() != tys.value.len() {
                            reporter.error(
                                ErrorKind::TypeParamCount { found: tys.value.len(), expected: tvars.len() },
                                tys.span,
                            );
                            return Err(());
                        }
                        let targs = self.trans_ty_list(&tys.value, 0, tys.value.len(), env, reporter)?;
                        let mappings = Subst::zip(&tvars, &targs);
                        match &*ret {
                            Type::App(TyCon::Arrow, fn_types) => {
                                assert(view_type(*ret) == VType::App(VTyCon::Arrow, view_types(fn_types@)));
                                if fn_types.len() == 0 {
                                    // An arrow always ends with the return
                                    // type; the precondition rules out an
                                    // empty one.
                                    return Err(());
                                }
                                if fn_types.len() - 1 != args.len() {
                                    reporter.error(
                                        ErrorKind::ArgCount { expected: fn_types.len() - 1, found: args.len() },
                                        call.span,
                                    );
                                    return Err(());
                                }
                                self.trans_inst_args(fn_types, args, &mappings, env, reporter)?;
                                Ok(self.subst(&fn_types[fn_types.len() - 1], &mappings))
                            },
                            _ => {
                                // Only functions are polymorphic values; the
                                // precondition rules out any other.
                                proof {
                                    lemma_view_arrow(*ret);
                                }
                                Err(())
                            },
                        }
                    },
                    _ => {
                        reporter.error(ErrorKind::NotCallable(callee.value), callee.span);
                        Err(())
                    },
                }
            },
        }
    }

    /// Checks the arguments of an explicit instantiation, each against the
    /// parameter type at its position, stopping at the first failure.
    fn trans_inst_args(
        &self,
        fn_types: &Vec<Type>,
        args: &Vec<Spanned<Expression>>,
        mappings: &Subst,
        env: &mut Env,
        reporter: &mut Reporter,
    ) -> (r: InferResult<()>)
        requires
            inst_args_spec(view_types(fn_types@), args@, mappings@, 0, old(env)@).0 !is Stuck,
        ensures
            *final(env) == *old(env),
            final(reporter)@ == old(reporter)@ + inst_args_spec(view_types(fn_types@), args@, mappings@, 0, old(env)@).1,
            matches_unit(r, inst_args_spec(view_types(fn_types@), args@, mappings@, 0, old(env)@).0),
        decreases args, 0nat,
    {
        let ghost fts = view_types(fn_types@);
        let ghost whole = inst_args_spec(fts, args@, mappings@, 0, env@);
        let mut i: usize = 0;
        while i < args.len() && i < fn_types.len()
            invariant
                fts == view_types(fn_types@),
                *env == *old(env),
                whole == inst_args_spec(fts, args@, mappings@, 0, env@),
                whole.0 !is Stuck,
                whole.0 == inst_args_spec(fts, args@, mappings@, i as int, env@).0,
                old(reporter)@ + whole.1 == reporter@ + inst_args_spec(fts, args@, mappings@, i as int, env@).1,
            decreases args.len() - i,
        {
            assert(decreases_to!(args => args@[i as int]));
            let arg_ty = self.trans_expr(&args[i], env, reporter)?;
            let a = self.subst(&arg_ty, mappings);
            let f = self.subst(&fn_types[i], mappings);
            self.unify(&a, &f, reporter, args[i].span, env)?;
            i = i + 1;
        }
        Ok(())
    }

    /// Walks the fields of a struct literal against the declared ones.
    fn trans_lit_fields(
        &self,
        decl: &Vec<Field>,
        fields: &Vec<Spanned<StructLitField>>,
        mappings: &Subst,
        owner: Symbol,
        flip: bool,
        i: usize,
        found: bool,
        instance: Vec<Field>,
        env: &mut Env,
        reporter: &mut Reporter,
    ) -> (r: InferResult<(bool, Vec<Field>)>)
        requires
            lit_fields_spec(view_fields(decl@), fields@, mappings@, owner, flip, i as int, found, view_fields(instance@), old(env)@).0 !is Stuck,
        ensures
            *final(env) == *old(env),
            final(reporter)@ == old(reporter)@ + lit_fields_spec(view_fields(decl@), fields@, mappings@, owner, flip, i as int, found, view_fields(instance@), old(env)@).1,
            matches_walk(r, lit_fields_spec(view_fields(decl@), fields@, mappings@, owner, flip, i as int, found, view_fields(instance@), old(env)@).0),
        decreases fields, fields.len() - i,
    {
        if i >= decl.len() || i >= fields.len() {
            return Ok((found, instance));
        }
        let field = &fields[i];
        if decl[i].name == field.value.ident.value {
            assert(decreases_to!(fields => fields@[i as int].value.expr));
            let ty = self.trans_expr(&field.value.expr, env, reporter)?;
            let (x, y) = if flip {
                (self.subst(&ty, mappings), self.subst(&decl[i].ty, mappings))
            } else {
                (self.subst(&decl[i].ty, mappings), self.subst(&ty, mappings))
            };
            self.unify(&x, &y, reporter, field.span, env)?;
            let mut instance = instance;
            let ghost before = instance@;
            instance.push(Field { name: field.value.ident.value, ty });
            assert(view_fields(instance@) =~= view_fields(before).push((fields@[i as int].value.ident.value, ty@)));
            self.trans_lit_fields(decl, fields, mappings, owner, flip, i + 1, true, instance, env, reporter)
        } else {
            reporter.error(
                ErrorKind::NotAMember { field: field.value.ident.value, owner },
                field.value.ident.span,
            );
            self.trans_lit_fields(decl, fields, mappings, owner, flip, i + 1, false, instance, env, reporter)
        }
    }

    fn trans_struct_lit(&self, lit: &Spanned<StructLit>, env: &mut Env, reporter: &mut Reporter) -> (r: InferResult<Type>)
        requires
            struct_lit_spec(*lit, old(env)@).0 !is Stuck,
        ensures
            *final(env) == *old(env),
            final(reporter)@ == old(reporter)@ + struct_lit_spec(*lit, old(env)@).1,
            matches_type(r, struct_lit_spec(*lit, old(env)@).0),
        decreases lit, 1nat,
    {
        match &lit.value {
            StructLit::Simple { .. } => self.trans_simple_lit(lit, env, reporter),
            StructLit::Instantiation { .. } => self.trans_inst_lit(lit, env, reporter),
        }
    }

    /// The end of a struct literal, once its fields have been walked.
    fn finish_lit(
        decl_len: usize,
        lit_len: usize,
        found: bool,
        instance: Vec<Field>,
        owner: Symbol,
        unique: Unique,
        span: Span,
        reporter: &mut Reporter,
    ) -> (r: InferResult<Type>)
        ensures
            final(reporter)@ == old(reporter)@ + lit_result(
                decl_len as int,
                lit_len as int,
                (Outcome::Done((found, view_fields(instance@))), empty()),
                owner,
                unique,
                span,
            ).1,
            matches_type(r, lit_result(
                decl_len as int,
                lit_len as int,
                (Outcome::Done((found, view_fields(instance@))), empty()),
                owner,
                unique,
                span,
            ).0),
    {
        if decl_len > lit_len {
            reporter.error(ErrorKind::MissingFields(owner), span);
            return Err(());
        } else if decl_len < lit_len {
            reporter.error(ErrorKind::TooManyFields(owner), span);
            return Err(());
        } else if !found {
            return Err(());
        }
        Ok(Type::Struct(owner, instance, unique))
    }

    #[verifier::rlimit(30)]
    fn trans_simple_lit(&self, lit: &Spanned<StructLit>, env: &mut Env, reporter: &mut Reporter) -> (r: InferResult<Type>)
        requires
            lit.value is Simple,
            struct_lit_spec(*lit, old(env)@).0 !is Stuck,
        ensures
            *final(env) == *old(env),
            final(reporter)@ == old(reporter)@ + struct_lit_spec(*lit, old(env)@).1,
            matches_type(r, struct_lit_spec(*lit, old(env)@).0),
        decreases lit, 0nat,
    {
        let (ident, fields) = match &lit.value {
            StructLit::Simple { ident, fields } => (ident, fields),
            StructLit::Instantiation { .. } => {
                // Ruled out by the precondition on the literal's kind.
                return Err(());
            },
        };
        let record = match entry_of(env, ident.value) {
            Some(e) => e,
            None => {
                reporter.error(ErrorKind::UndefinedStruct(ident.value), ident.span);
                return Err(());
            },
        };
        match record {
            Entry::Ty(Type::Poly(tvars, inner)) => match &*inner {
                Type::Struct(n, def_fields, unique) => {
                    assert(view_type(*inner) == VType::Struct(*n, view_fields(def_fields@), *unique));
                    let k = if tvars.len() <= fields.len() { tvars.len() } else { fields.len() };
                    let tys = self.trans_field_exprs(fields, 0, k, env, reporter)?;
                    let mappings = Subst::zip(&tvars, &tys);
                    let start: Vec<Field> = Vec::new();
                    assert(view_fields(start@) =~= seq![]);
                    let (found, instance) = self.trans_lit_fields(
                        def_fields,
                        fields,
                        &mappings,
                        ident.value,
                        false,
                        0,
                        false,
                        start,
                        env,
                        reporter,
                    )?;
                    Self::finish_lit(def_fields.len(), fields.len(), found, instance, ident.value, *unique, lit.span, reporter)
                },
                _ => {
                    assert(view_type(*inner) !is Struct);
                    Err(())
                },
            },
            _ => {
                reporter.error(ErrorKind::NotAStruct(ident.value), ident.span);
                Err(())
            },
        }
    }

    fn trans_inst_lit(&self, lit: &Spanned<StructLit>, env: &mut Env, reporter: &mut Reporter) -> (r: InferResult<Type>)
        requires
            lit.value is Instantiation,
            struct_lit_spec(*lit, old(env)@).0 !is Stuck,
        ensures
            *final(env) == *old(env),
            final(reporter)@ == old(reporter)@ + struct_lit_spec(*lit, old(env)@).1,
            matches_type(r, struct_lit_spec(*lit, old(env)@).0),
        decreases lit, 0nat,
    {
        let (ident, fields, tys) = match &lit.value {
            StructLit::Instantiation { ident, fields, tys } => (ident, fields, tys),
            StructLit::Simple { .. } => {
                // Ruled out by the precondition on the literal's kind.
                return Err(());
            },
        };
        let record = match entry_of(env, ident.value) {
            Some(e) => e,
            None => {
                reporter.error(ErrorKind::UndefinedStruct(ident.value), ident.span);
                return Err(());
            },
        };
        match record {
            Entry::Ty(Type::Poly(tvars, inner)) => {
                if tvars.len() != tys.value.len() {
                    reporter.error(
                        ErrorKind::TypeParamCount { found: tys.value.len(), expected: tvars.len() },
                        tys.span,
                    );
                    return Err(());
                }
                let targs = self.trans_ty_list(&tys.value, 0, tys.value.len(), env, reporter)?;
                let mappings = Subst::zip(&tvars, &targs);
                match &*inner {
                    Type::Struct(n, type_fields, unique) => {
                        assert(view_type(*inner) == VType::Struct(*n, view_fields(type_fields@), *unique));
                        let start: Vec<Field> = Vec::new();
                        assert(view_fields(start@) =~= seq![]);
                        let (found, instance) = self.trans_lit_fields(
                            type_fields,
                            fields,
                            &mappings,
                            ident.value,
                            true,
                            0,
                            false,
                            start,
                            env,
                            reporter,
                        )?;
                        Self::finish_lit(
                            type_fields.len(),
                            fields.len(),
                            found,
                            instance,
                            ident.value,
                            *unique,
                            lit.span,
                            reporter,
                        )
                    },
                    _ => {
                        // Polymorphic type entries hold structs; the
                        // precondition rules out any other.
                        assert(view_type(*inner) !is Struct);
                        Err(())
                    },
                }
            },
            _ => {
                reporter.error(ErrorKind::NotInstantiable(ident.value), ident.span);
                Err(())
            },
        }
    }

    /// Gives the type of a variable, a field of a struct variable, or a
    /// subscript; the environment is left as it was.
    pub fn trans_var(&self, var: &Spanned<Var>, env: &mut Env, reporter: &mut Reporter) -> (r: InferResult<Type>)
        requires
            var_spec(*var, old(env)@).0 !is Stuck,
        ensures
            *final(env) == *old(env),
            final(reporter)@ == old(reporter)@ + var_spec(*var, old(env)@).1,
            matches_type(r, var_spec(*var, old(env)@).0),
        decreases var, 0nat,
    {
        match &var.value {
            Var::Simple(ident) => match env.look_var(ident.value) {
                Some(t) => Ok(t.deep_clone()),
                None => {
                    reporter.error(ErrorKind::UndefinedVariable(ident.value), var.span);
                    Err(())
                },
            },
            Var::Field { ident, value } => {
                let record = match env.look_var(ident.value) {
                    Some(t) => t.deep_clone(),
                    None => {
                        reporter.error(ErrorKind::UndefinedVariable(ident.value), var.span);
                        return Err(());
                    },
                };
                match &record {
                    Type::Struct(name, fields, _) => match find_field(fields, value.value) {
                        Some(t) => Ok(t),
                        None => {
                            reporter.error(ErrorKind::NoSuchField { owner: *name, field: value.value }, var.span);
                            Err(())
                        },
                    },
                    _ => {
                        reporter.error(ErrorKind::NoFieldOnType(record, value.value), var.span);
                        Err(())
                    },
                }
            },
            Var::SubScript { target, expr } => {
                let target_ty = match env.look_var(target.value) {
                    Some(t) => t.deep_clone(),
                    None => {
                        reporter.error(ErrorKind::UndefinedVariable(target.value), var.span);
                        return Err(());
                    },
                };
                if !target_ty.is_int() {
                    reporter.error(ErrorKind::CannotIndex(target_ty), target.span);
                    return Err(());
                }
                let expr_ty = self.trans_expr(expr, env, reporter)?;
                if !expr_ty.is_int() {
                    reporter.error(ErrorKind::IndexNotInt(expr_ty), var.span);
                    return Err(());
                }
                proof {
                    lemma_view_string(target_ty);
                }
                match &target_ty {
                    Type::App(TyCon::String, _) => Ok(int_ty(Sign::Unsigned, Size::Bit8)),
                    _ => {
                        reporter.error(ErrorKind::CannotIndex(target_ty), target.span);
                        Err(())
                    },
                }
            },
        }
    }
}

impl Infer {
    /// Checks a statement; yields the type it produces.
    pub fn trans_statement(
        &self,
        statement: &Spanned<Statement>,
        env: &mut Env,
        reporter: &mut Reporter,
    ) -> (r: InferResult<Type>)
        requires
            stmt_spec(*statement, old(env)@).0 !is Stuck,
        ensures
            final(env)@ == stmt_spec(*statement, old(env)@).1,
            final(reporter)@ == old(reporter)@ + stmt_spec(*statement, old(env)@).2,
            matches_type(r, stmt_spec(*statement, old(env)@).0),
        decreases statement, 1nat,
    {
        match &statement.value {
            Statement::Block(statements) => self.trans_block(statements, 0, Type::Nil, env, reporter),
            Statement::Break | Statement::Continue => Ok(Type::Nil),
            Statement::Expr(expr) => {
                self.trans_expr(expr, env, reporter)?;
                Ok(Type::Nil)
            },
            Statement::For { .. } => self.trans_for(statement, env, reporter),
            Statement::If { .. } => self.trans_if(statement, env, reporter),
            Statement::Let { .. } => self.trans_let(statement, env, reporter),
            Statement::Return(expr) => self.trans_expr(expr, env, reporter),
            Statement::While { .. } => self.trans_while(statement, env, reporter),
        }
    }

    /// Checks that the increment of a `for`, if there is one, is an integer.
    fn check_incr(&self, incr: &Option<Spanned<Expression>>, env: &mut Env, reporter: &mut Reporter) -> (r: InferResult<()>)
        requires
            incr_spec(*incr, old(env)@).0 !is Stuck,
        ensures
            *final(env) == *old(env),
            final(reporter)@ == old(reporter)@ + incr_spec(*incr, old(env)@).1,
            matches_unit(r, incr_spec(*incr, old(env)@).0),
    {
        if let Some(incr) = incr {
            let ty = self.trans_expr(incr, env, reporter)?;
            if !ty.is_int() {
                reporter.error(ErrorKind::IncrementNotInt, incr.span);
                return Err(());
            }
        }
        Ok(())
    }

    /// Checks that the condition of a `for`, if there is one, is a `bool`.
    fn check_cond(&self, cond: &Option<Spanned<Expression>>, env: &mut Env, reporter: &mut Reporter) -> (r: InferResult<()>)
        requires
            cond_spec(*cond, old(env)@).0 !is Stuck,
        ensures
            *final(env) == *old(env),
            final(reporter)@ == old(reporter)@ + cond_spec(*cond, old(env)@).1,
            matches_unit(r, cond_spec(*cond, old(env)@).0),
    {
        if let Some(cond) = cond {
            let ty = self.trans_expr(cond, env, reporter)?;
            let b = bool_ty();
            self.unify(&b, &ty, reporter, cond.span, env)?;
        }
        Ok(())
    }

    /// Checks a `for` statement.
    #[verifier::rlimit(40)]
    fn trans_for(&self, statement: &Spanned<Statement>, env: &mut Env, reporter: &mut Reporter) -> (r: InferResult<Type>)
        requires
            statement.value is For,
            stmt_spec(*statement, old(env)@).0 !is Stuck,
        ensures
            final(env)@ == stmt_spec(*statement, old(env)@).1,
            final(reporter)@ == old(reporter)@ + stmt_spec(*statement, old(env)@).2,
            matches_type(r, stmt_spec(*statement, old(env)@).0),
        decreases statement, 0nat,
    {
        match &statement.value {
            Statement::For { init, cond, incr, body } => {
                if init.is_none() && cond.is_none() && incr.is_none() {
                    return self.trans_statement(body, env, reporter);
                }
                if let Some(init) = init {
                    self.trans_statement(init, env, reporter)?;
                }
                self.check_incr(incr, env, reporter)?;
                self.check_cond(cond, env, reporter)?;
                self.trans_statement(body, env, reporter)?;
                Ok(Type::Nil)
            },
            // Ruled out by the precondition on the statement's kind.
            _ => Err(()),
        }
    }

    /// Checks an `if` statement.
    fn trans_if(&self, statement: &Spanned<Statement>, env: &mut Env, reporter: &mut Reporter) -> (r: InferResult<Type>)
        requires
            statement.value is If,
            stmt_spec(*statement, old(env)@).0 !is Stuck,
        ensures
            final(env)@ == stmt_spec(*statement, old(env)@).1,
            final(reporter)@ == old(reporter)@ + stmt_spec(*statement, old(env)@).2,
            matches_type(r, stmt_spec(*statement, old(env)@).0),
        decreases statement, 0nat,
    {
        match &statement.value {
            Statement::If { cond, then, otherwise } => {
                let cond_ty = self.trans_expr(cond, env, reporter)?;
                let b = bool_ty();
                self.unify(&b, &cond_ty, reporter, cond.span, env)?;
                let then_ty = self.trans_statement(then, env, reporter)?;
                if let Some(otherwise) = otherwise {
                    let otherwise_ty = self.trans_statement(otherwise, env, reporter)?;
                    self.unify(&then_ty, &otherwise_ty, reporter, otherwise.span, env)?;
                    Ok(then_ty)
                } else {
                    Ok(then_ty)
                }
            },
            // Ruled out by the precondition on the statement's kind.
            _ => Err(()),
        }
    }

    /// Checks a `let` statement.
    fn trans_let(&self, statement: &Spanned<Statement>, env: &mut Env, reporter: &mut Reporter) -> (r: InferResult<Type>)
        requires
            statement.value is Let,
            stmt_spec(*statement, old(env)@).0 !is Stuck,
        ensures
            final(env)@ == stmt_spec(*statement, old(env)@).1,
            final(reporter)@ == old(reporter)@ + stmt_spec(*statement, old(env)@).2,
            matches_type(r, stmt_spec(*statement, old(env)@).0),
        decreases statement, 0nat,
    {
        match &statement.value {
            Statement::Let { ident, ty, expr } => {
                if let Some(expr) = expr {
                    let expr_ty = self.trans_expr(expr, env, reporter)?;
                    if let Some(ty) = ty {
                        let t = self.trans_ty(ty, env, reporter)?;
                        self.unify(&expr_ty, &t, reporter, ty.span, env)?;
                        return Ok(Type::Nil);
                    }
                    env.add_var(ident.value, expr_ty);
                    Ok(Type::Nil)
                } else {
                    if let Some(ty) = ty {
                        let t = self.trans_ty(ty, env, reporter)?;
                        env.add_var(ident.value, t);
                        return Ok(Type::Nil);
                    }
                    env.add_var(ident.value, Type::Nil);
                    Ok(Type::Nil)
                }
            },
            // Ruled out by the precondition on the statement's kind.
            _ => Err(()),
        }
    }

    /// Checks a `while` statement.
    fn trans_while(&self, statement: &Spanned<Statement>, env: &mut Env, reporter: &mut Reporter) -> (r: InferResult<Type>)
        requires
            statement.value is While,
            stmt_spec(*statement, old(env)@).0 !is Stuck,
        ensures
            final(env)@ == stmt_spec(*statement, old(env)@).1,
            final(reporter)@ == old(reporter)@ + stmt_spec(*statement, old(env)@).2,
            matches_type(r, stmt_spec(*statement, old(env)@).0),
        decreases statement, 0nat,
    {
        match &statement.value {
            Statement::While { cond, body } => {
                let cond_ty = self.trans_expr(cond, env, reporter)?;
                let b = bool_ty();
                self.unify(&b, &cond_ty, reporter, cond.span, env)?;
                self.trans_statement(body, env, reporter)?;
                Ok(Type::Nil)
            },
            // Ruled out by the precondition on the statement's kind.
            _ => Err(()),
        }
    }

    /// Checks the statements `ss[i..]` of a block in order; yields the type
    /// of the last one, `last` when there is none.
    fn trans_block(
        &self,
        ss: &Vec<Spanned<Statement>>,
        i: usize,
        last: Type,
        env: &mut Env,
        reporter: &mut Reporter,
    ) -> (r: InferResult<Type>)
        requires
            block_spec(ss@, i as int, last@, old(env)@).0 !is Stuck,
        ensures
            final(env)@ == block_spec(ss@, i as int, last@, old(env)@).1,
            final(reporter)@ == old(reporter)@ + block_spec(ss@, i as int, last@, old(env)@).2,
            matches_type(r, block_spec(ss@, i as int, last@, old(env)@).0),
        decreases ss, ss.len() - i,
    {
        if i >= ss.len() {
            return Ok(last);
        }
        assert(decreases_to!(ss => ss@[i as int]));
        let t = self.trans_statement(&ss[i], env, reporter)?;
        self.trans_block(ss, i + 1, t, env, reporter)
    }
}

/// Binds each type parameter to the next type variable of the environment,
/// in order; yields the variables.
fn introduce_type_params(env: &mut Env, params: &Vec<Spanned<Symbol>>) -> (tvs: Vec<TypeVar>)
    requires
        old(env)@.next_tyvar + params@.len() <= u32::MAX,
    ensures
        tvs@ == fresh_vars(old(env)@.next_tyvar, params@.len()),
        final(env)@ == bind_type_params(old(env)@, params@),
{
    let mut tvs: Vec<TypeVar> = Vec::new();
    let mut i: usize = 0;
    assert(env@ =~= bind_type_params(old(env)@, params@.take(0)));
    while i < params.len()
        invariant
            i <= params.len(),
            old(env)@.next_tyvar + params@.len() <= u32::MAX,
            tvs@ == fresh_vars(old(env)@.next_tyvar, i as nat),
            env@ == bind_type_params(old(env)@, params@.take(i as int)),
        decreases params.len() - i,
    {
        let tv = env.fresh_tyvar();
        env.add_type(params[i].value, Entry::Ty(Type::Var(tv)));
        tvs.push(tv);
        i = i + 1;
        assert(tvs@ =~= fresh_vars(old(env)@.next_tyvar, i as nat));
        assert(env@.types.bindings =~= bind_type_params(old(env)@, params@.take(i as int)).types.bindings);
        assert(env@ =~= bind_type_params(old(env)@, params@.take(i as int)));
    }
    assert(params@.take(params@.len() as int) =~= params@);
    tvs
}

impl Infer {
    /// The types of the fields `fs[i..]` of a struct declaration, stopping
    /// at the first failure.
    fn trans_field_tys(
        &self,
        fs: &Vec<Spanned<StructField>>,
        i: usize,
        env: &mut Env,
        reporter: &mut Reporter,
    ) -> (r: InferResult<Vec<Type>>)
        requires
            i <= fs@.len(),
            ty_list_spec(field_decl_tys(fs@), i as int, fs@.len() as int, old(env)@).0 !is Stuck,
        ensures
            *final(env) == *old(env),
            final(reporter)@ == old(reporter)@ + ty_list_spec(field_decl_tys(fs@), i as int, fs@.len() as int, old(env)@).1,
            matches_types(r, ty_list_spec(field_decl_tys(fs@), i as int, fs@.len() as int, old(env)@).0),
            r matches Ok(v) ==> v@.len() == fs@.len() - i,
        decreases fs.len() - i,
    {
        if i >= fs.len() {
            let r: Vec<Type> = Vec::new();
            assert(view_types(r@) =~= seq![]);
            return Ok(r);
        }
        let t = self.trans_ty(&fs[i].value.ty, env, reporter)?;
        let mut rest = self.trans_field_tys(fs, i + 1, env, reporter)?;
        let ghost before = rest@;
        rest.insert(0, t);
        assert(view_types(rest@) =~= seq![t@] + view_types(before));
        Ok(rest)
    }

    /// The types of the parameters `ps[i..]` of a function, stopping at the
    /// first failure.
    fn trans_param_tys(
        &self,
        ps: &Vec<Spanned<FunctionParam>>,
        i: usize,
        env: &mut Env,
        reporter: &mut Reporter,
    ) -> (r: InferResult<Vec<Type>>)
        requires
            i <= ps@.len(),
            ty_list_spec(param_tys(ps@), i as int, ps@.len() as int, old(env)@).0 !is Stuck,
        ensures
            *final(env) == *old(env),
            final(reporter)@ == old(reporter)@ + ty_list_spec(param_tys(ps@), i as int, ps@.len() as int, old(env)@).1,
            matches_types(r, ty_list_spec(param_tys(ps@), i as int, ps@.len() as int, old(env)@).0),
            r matches Ok(v) ==> v@.len() == ps@.len() - i,
        decreases ps.len() - i,
    {
        if i >= ps.len() {
            let r: Vec<Type> = Vec::new();
            assert(view_types(r@) =~= seq![]);
            return Ok(r);
        }
        let t = self.trans_ty(&ps[i].value.ty, env, reporter)?;
        let mut rest = self.trans_param_tys(ps, i + 1, env, reporter)?;
        let ghost before = rest@;
        rest.insert(0, t);
        assert(view_types(rest@) =~= seq![t@] + view_types(before));
        Ok(rest)
    }

    /// Declares a struct: binds its name to a polymorphic struct type whose
    /// fields have the declared types.
    pub fn trans_struct(&self, struct_def: &Spanned<Struct>, env: &mut Env, reporter: &mut Reporter) -> (r: InferResult<()>)
        requires
            old(env)@.next_tyvar + struct_def.value.name.value.type_params@.len() <= u32::MAX,
            old(env)@.next_unique < u32::MAX,
            struct_spec(*struct_def, old(env)@).0 !is Stuck,
        ensures
            final(env)@ == struct_spec(*struct_def, old(env)@).1,
            final(reporter)@ == old(reporter)@ + struct_spec(*struct_def, old(env)@).2,
            matches_unit(r, struct_spec(*struct_def, old(env)@).0),
    {
        let poly_tvs = introduce_type_params(env, &struct_def.value.name.value.type_params);
        let unique = env.fresh_unique();
        let name = struct_def.value.name.value.name.value;
        let no_fields: Vec<Field> = Vec::new();
        assert(view_fields(no_fields@) =~= seq![]);
        let skeleton = Type::Struct(name, no_fields, unique);
        assert(skeleton@ == VType::Struct(name, seq![], unique));
        let entry = Entry::Ty(Type::Poly(clone_tyvars(&poly_tvs), Box::new(skeleton)));
        assert(entry@ == VEntry::Ty(VType::Poly(poly_tvs@, Box::new(VType::Struct(name, seq![], unique)))));
        env.add_type(name, entry);
        let fields = &struct_def.value.fields.value;
        let tys = self.trans_field_tys(fields, 0, env, reporter)?;
        let mut type_fields: Vec<Field> = Vec::new();
        let mut k: usize = 0;
        while k < fields.len()
            invariant
                k <= fields@.len(),
                tys@.len() == fields@.len(),
                type_fields@.len() == k,
                forall|j: int| 0 <= j < k ==> (#[trigger] type_fields@[j]).name == fields@[j].value.name.value
                    && view_type(type_fields@[j].ty) == view_type(tys@[j]),
            decreases fields.len() - k,
        {
            type_fields.push(Field { name: fields[k].value.name.value, ty: tys[k].deep_clone() });
            k = k + 1;
        }
        assert(view_fields(type_fields@) =~= name_fields(fields@, view_types(tys@)));
        let full = Type::Struct(name, type_fields, unique);
        assert(full@ == VType::Struct(name, name_fields(fields@, view_types(tys@)), unique));
        let ghost vs = poly_tvs@;
        let entry = Entry::Ty(Type::Poly(poly_tvs, Box::new(full)));
        assert(entry@ == VEntry::Ty(VType::Poly(vs, Box::new(full@))));
        env.add_type(name, entry);
        Ok(())
    }

    /// Declares a type alias: a type, or with type parameters a type
    /// constructor.
    pub fn trans_alias(&self, alias: &Spanned<TyAlias>, env: &mut Env, reporter: &mut Reporter) -> (r: InferResult<()>)
        requires
            old(env)@.next_tyvar + alias.value.ident.value.type_params@.len() <= u32::MAX,
            alias_spec(*alias, old(env)@).0 !is Stuck,
        ensures
            final(env)@ == alias_spec(*alias, old(env)@).1,
            final(reporter)@ == old(reporter)@ + alias_spec(*alias, old(env)@).2,
            matches_unit(r, alias_spec(*alias, old(env)@).0),
    {
        if alias.value.ident.value.type_params.len() == 0 {
            let ty = self.trans_ty(&alias.value.ty, env, reporter)?;
            env.add_type(alias.value.ident.value.name.value, Entry::Ty(ty));
            return Ok(());
        }
        let poly_tvs = introduce_type_params(env, &alias.value.ident.value.type_params);
        let ty = self.trans_ty(&alias.value.ty, env, reporter)?;
        let entry = Entry::TyCon(TyCon::Fun(poly_tvs, Box::new(ty)));
        env.add_type(alias.value.ident.value.name.value, entry);
        Ok(())
    }

    /// Declares a function, binding its name to its polymorphic type, and
    /// checks its body with its parameters in scope.
    pub fn trans_function(&self, function: &Spanned<Function>, env: &mut Env, reporter: &mut Reporter) -> (r: InferResult<()>)
        requires
            old(env)@.next_tyvar + function.value.name.value.type_params@.len() <= u32::MAX,
            function_spec(*function, old(env)@).0 !is Stuck,
        ensures
            final(env)@ == function_spec(*function, old(env)@).1,
            final(reporter)@ == old(reporter)@ + function_spec(*function, old(env)@).2,
            matches_unit(r, function_spec(*function, old(env)@).0),
    {
        let poly_tvs = introduce_type_params(env, &function.value.name.value.type_params);
        let ret = match &function.value.return_ty {
            Some(rt) => self.trans_ty(rt, env, reporter)?,
            None => Type::Nil,
        };
        let params = &function.value.params.value;
        let mut param_tys = self.trans_param_tys(params, 0, env, reporter)?;
        let ghost before = param_tys@;
        param_tys.push(ret.deep_clone());
        assert(view_types(param_tys@) =~= view_types(before).push(ret@));
        let arrow = TyCon::Arrow;
        assert(arrow@ == VTyCon::Arrow);
        let app = Type::App(arrow, clone_types(&param_tys));
        assert(app@ == VType::App(VTyCon::Arrow, view_types(param_tys@)));
        let ghost vs = poly_tvs@;
        let fn_ty = Type::Poly(poly_tvs, Box::new(app));
        assert(fn_ty@ == VType::Poly(vs, Box::new(app@)));
        env.add_var(function.value.name.value.name.value, fn_ty);
        env.begin_scope();
        let ghost scoped = env@;
        let mut k: usize = 0;
        assert(env@ =~= bind_params(scoped, params@.take(0), view_types(param_tys@)));
        while k < params.len()
            invariant
                k <= params@.len(),
                param_tys@.len() == params@.len() + 1,
                env@ == bind_params(scoped, params@.take(k as int), view_types(param_tys@)),
            decreases params.len() - k,
        {
            env.add_var(params[k].value.name.value, param_tys[k].deep_clone());
            k = k + 1;
            assert(env@.vars.bindings =~= bind_params(scoped, params@.take(k as int), view_types(param_tys@)).vars.bindings);
            assert(env@ =~= bind_params(scoped, params@.take(k as int), view_types(param_tys@)));
        }
        assert(params@.take(params@.len() as int) =~= params@);
        let body = self.trans_statement(&function.value.body, env, reporter)?;
        self.unify(&ret, &body, reporter, function.value.body.span, env)?;
        env.end_scope();
        Ok(())
    }
}

} // verus!
