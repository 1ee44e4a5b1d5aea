use underscore_semant::cast_check::cast_check;
use underscore_semant::env::{Entry, Env};
use underscore_semant::infer::{Infer, Subst};
use underscore_semant::report::{Diagnostic, ErrorKind, Reporter};
use underscore_semant::syntax::{
    Call, Expression, Function, FunctionParam, ItemName, Literal, Number, Op, Span, Spanned, Statement, Struct,
    StructField, StructLit, StructLitField, Ty, TyAlias, UnaryOp, Var,
};
use underscore_semant::types::{Field, Sign, Size, Symbol, TyCon, Type, TypeVar, Unique};

// ---------------------------------------------------------------- builders

fn at(start: u32, end: u32) -> Span {
    Span { start, end }
}

fn sp<T>(value: T, start: u32) -> Spanned<T> {
    Spanned { value, span: at(start, start + 1) }
}

fn name(n: u32, start: u32) -> Spanned<Symbol> {
    sp(Symbol(n), start)
}

fn i32_ty() -> Type {
    Type::App(TyCon::Int(Sign::Signed, Size::Bit32), vec![])
}

fn bool_ty() -> Type {
    Type::App(TyCon::Bool, vec![])
}

fn str_ty() -> Type {
    Type::App(TyCon::String, vec![])
}

fn num(v: u64, start: u32) -> Spanned<Expression> {
    sp(Expression::Literal(Literal::Number(Number { value: v, ty: None })), start)
}

fn tru(start: u32) -> Spanned<Expression> {
    sp(Expression::Literal(Literal::True(true)), start)
}

fn string(start: u32) -> Spanned<Expression> {
    sp(Expression::Literal(Literal::Str(String::from("a"))), start)
}

fn var(n: u32, start: u32) -> Spanned<Expression> {
    sp(Expression::Var(sp(Var::Simple(name(n, start)), start)), start)
}

fn simple_ty(n: u32, start: u32) -> Spanned<Ty> {
    sp(Ty::Simple(name(n, start)), start)
}

fn item(n: u32, params: Vec<u32>) -> Spanned<ItemName> {
    sp(ItemName { name: name(n, 0), type_params: params.into_iter().map(|p| name(p, 0)).collect() }, 0)
}

fn struct_decl(n: u32, params: Vec<u32>, fields: Vec<(u32, Spanned<Ty>)>) -> Spanned<Struct> {
    let fields = fields.into_iter().map(|(f, ty)| sp(StructField { name: name(f, 0), ty }, 0)).collect();
    sp(Struct { name: item(n, params), fields: sp(fields, 0) }, 0)
}

fn function(
    n: u32,
    type_params: Vec<u32>,
    params: Vec<(u32, Spanned<Ty>)>,
    return_ty: Option<Spanned<Ty>>,
    body: Vec<Spanned<Statement>>,
) -> Spanned<Function> {
    let params = params.into_iter().map(|(p, ty)| sp(FunctionParam { name: name(p, 0), ty }, 0)).collect();
    sp(
        Function { name: item(n, type_params), params: sp(params, 0), return_ty, body: sp(Statement::Block(body), 90) },
        0,
    )
}

fn let_stmt(n: u32, ty: Option<Spanned<Ty>>, expr: Option<Spanned<Expression>>) -> Spanned<Statement> {
    sp(Statement::Let { ident: name(n, 0), ty, expr }, 0)
}

fn ret(e: Spanned<Expression>) -> Spanned<Statement> {
    sp(Statement::Return(e), 0)
}

fn binary(l: Spanned<Expression>, op: Op, r: Spanned<Expression>, start: u32) -> Spanned<Expression> {
    sp(Expression::Binary { lhs: Box::new(l), op: sp(op, start), rhs: Box::new(r) }, start)
}

fn lit_field(n: u32, e: Spanned<Expression>, start: u32) -> Spanned<StructLitField> {
    sp(StructLitField { ident: name(n, start), expr: e }, start)
}

fn call(callee: u32, args: Vec<Spanned<Expression>>, start: u32) -> Spanned<Expression> {
    sp(Expression::Call(sp(Call::Simple { callee: name(callee, start), args }, start)), start)
}

fn diag(kind: ErrorKind<Type>, span: Span) -> Diagnostic<Type> {
    Diagnostic { kind, span }
}

fn setup() -> (Infer, Env, Reporter) {
    (Infer::new(), Env::new(), Reporter::new())
}

/// Checks an expression by returning it from a block.
fn expr_type(infer: &Infer, env: &mut Env, reporter: &mut Reporter, e: Spanned<Expression>) -> Result<Type, ()> {
    infer.trans_statement(&ret(e), env, reporter)
}

// ---------------------------------------------------------------- types

#[test]
fn primitive_types_translate() {
    let (infer, mut env, mut reporter) = setup();
    let cases = vec![
        (Ty::Bool, bool_ty()),
        (Ty::Str, str_ty()),
        (Ty::Nil, Type::App(TyCon::Void, vec![])),
        (Ty::U8, Type::App(TyCon::Int(Sign::Unsigned, Size::Bit8), vec![])),
        (Ty::I8, Type::App(TyCon::Int(Sign::Signed, Size::Bit8), vec![])),
        (Ty::U32, Type::App(TyCon::Int(Sign::Unsigned, Size::Bit32), vec![])),
        (Ty::I32, i32_ty()),
        (Ty::U64, Type::App(TyCon::Int(Sign::Unsigned, Size::Bit64), vec![])),
        (Ty::I64, Type::App(TyCon::Int(Sign::Signed, Size::Bit64), vec![])),
    ];
    for (ty, expected) in cases {
        assert_eq!(infer.trans_ty(&sp(ty, 0), &mut env, &mut reporter), Ok(expected));
    }
    assert!(reporter.diagnostics.is_empty());
}

#[test]
fn undefined_type_is_reported_at_its_name() {
    let (infer, mut env, mut reporter) = setup();
    assert_eq!(infer.trans_ty(&simple_ty(7, 3), &mut env, &mut reporter), Err(()));
    assert_eq!(reporter.diagnostics, vec![diag(ErrorKind::UndefinedType(Symbol(7)), at(3, 4))]);
    let poly = sp(Ty::Poly(name(7, 5), vec![sp(Ty::I32, 6)]), 5);
    assert_eq!(infer.trans_ty(&poly, &mut env, &mut reporter), Err(()));
    assert_eq!(reporter.diagnostics[1], diag(ErrorKind::UndefinedType(Symbol(7)), at(5, 6)));
}

#[test]
fn function_types_translate() {
    let (infer, mut env, mut reporter) = setup();
    let f = sp(Ty::Func(vec![sp(Ty::I32, 0), sp(Ty::Bool, 0)], Some(Box::new(sp(Ty::Str, 0)))), 0);
    assert_eq!(infer.trans_ty(&f, &mut env, &mut reporter), Ok(Type::App(TyCon::Arrow, vec![i32_ty(), bool_ty(), str_ty()])));
    let g = sp(Ty::Func(vec![], None), 0);
    assert_eq!(infer.trans_ty(&g, &mut env, &mut reporter), Ok(Type::App(TyCon::Arrow, vec![Type::Nil])));
}

#[test]
fn struct_declaration_binds_its_type() {
    let (infer, mut env, mut reporter) = setup();
    let point = struct_decl(1, vec![], vec![(2, sp(Ty::I32, 0)), (3, sp(Ty::Bool, 0))]);
    assert_eq!(infer.trans_struct(&point, &mut env, &mut reporter), Ok(()));
    let expected = Type::Struct(
        Symbol(1),
        vec![Field { name: Symbol(2), ty: i32_ty() }, Field { name: Symbol(3), ty: bool_ty() }],
        Unique(0),
    );
    assert_eq!(env.look_type(Symbol(1)), Some(&Entry::Ty(Type::Poly(vec![], Box::new(expected.deep_clone())))));
    assert_eq!(infer.trans_ty(&simple_ty(1, 0), &mut env, &mut reporter), Ok(expected));
    assert!(reporter.diagnostics.is_empty());
}

#[test]
fn recursive_struct_field_sees_the_skeleton() {
    let (infer, mut env, mut reporter) = setup();
    let list = struct_decl(1, vec![], vec![(2, simple_ty(1, 0))]);
    assert_eq!(infer.trans_struct(&list, &mut env, &mut reporter), Ok(()));
    let skeleton = Type::Struct(Symbol(1), vec![], Unique(0));
    let full = Type::Struct(Symbol(1), vec![Field { name: Symbol(2), ty: skeleton }], Unique(0));
    assert_eq!(env.look_type(Symbol(1)), Some(&Entry::Ty(Type::Poly(vec![], Box::new(full)))));
}

#[test]
fn struct_with_bad_field_type_keeps_skeleton() {
    let (infer, mut env, mut reporter) = setup();
    let bad = struct_decl(1, vec![], vec![(2, simple_ty(9, 4))]);
    assert_eq!(infer.trans_struct(&bad, &mut env, &mut reporter), Err(()));
    assert_eq!(reporter.diagnostics, vec![diag(ErrorKind::UndefinedType(Symbol(9)), at(4, 5))]);
    let skeleton = Type::Struct(Symbol(1), vec![], Unique(0));
    assert_eq!(env.look_type(Symbol(1)), Some(&Entry::Ty(Type::Poly(vec![], Box::new(skeleton)))));
}

#[test]
fn generic_struct_is_instantiated() {
    let (infer, mut env, mut reporter) = setup();
    let wrap = struct_decl(1, vec![10], vec![(2, simple_ty(10, 0))]);
    assert_eq!(infer.trans_struct(&wrap, &mut env, &mut reporter), Ok(()));
    assert_eq!(env.look_type(Symbol(10)), Some(&Entry::Ty(Type::Var(TypeVar(0)))));
    let inst = sp(Ty::Poly(name(1, 0), vec![sp(Ty::I32, 0)]), 0);
    let expected = Type::Struct(Symbol(1), vec![Field { name: Symbol(2), ty: i32_ty() }], Unique(0));
    assert_eq!(infer.trans_ty(&inst, &mut env, &mut reporter), Ok(expected));
    assert!(reporter.diagnostics.is_empty());
}

#[test]
fn generic_struct_without_arguments_is_an_error() {
    let (infer, mut env, mut reporter) = setup();
    let wrap = struct_decl(1, vec![10], vec![(2, simple_ty(10, 0))]);
    infer.trans_struct(&wrap, &mut env, &mut reporter).unwrap();
    assert_eq!(infer.trans_ty(&simple_ty(1, 4), &mut env, &mut reporter), Err(()));
    assert_eq!(reporter.diagnostics, vec![diag(ErrorKind::PolyMissingArgs(Symbol(1)), at(4, 5))]);
}

#[test]
fn arguments_to_a_plain_type_are_an_error() {
    let (infer, mut env, mut reporter) = setup();
    infer.trans_struct(&struct_decl(1, vec![], vec![]), &mut env, &mut reporter).unwrap();
    let inst = sp(Ty::Poly(name(1, 4), vec![sp(Ty::I32, 0)]), 0);
    assert_eq!(infer.trans_ty(&inst, &mut env, &mut reporter), Err(()));
    let alias = sp(TyAlias { ident: item(2, vec![]), ty: sp(Ty::I32, 0) }, 0);
    infer.trans_alias(&alias, &mut env, &mut reporter).unwrap();
    let inst2 = sp(Ty::Poly(name(2, 6), vec![sp(Ty::I32, 0)]), 0);
    assert_eq!(infer.trans_ty(&inst2, &mut env, &mut reporter), Err(()));
    assert_eq!(
        reporter.diagnostics,
        vec![diag(ErrorKind::NotPolymorphic(Symbol(1)), at(4, 5)), diag(ErrorKind::NotPolymorphic(Symbol(2)), at(6, 7))]
    );
}

#[test]
fn alias_stands_for_its_type() {
    let (infer, mut env, mut reporter) = setup();
    let alias = sp(TyAlias { ident: item(1, vec![]), ty: sp(Ty::I32, 0) }, 0);
    assert_eq!(infer.trans_alias(&alias, &mut env, &mut reporter), Ok(()));
    assert_eq!(infer.trans_ty(&simple_ty(1, 0), &mut env, &mut reporter), Ok(i32_ty()));
}

#[test]
fn parameterised_alias_is_a_constructor() {
    let (infer, mut env, mut reporter) = setup();
    let alias = sp(TyAlias { ident: item(1, vec![5]), ty: simple_ty(5, 0) }, 0);
    assert_eq!(infer.trans_alias(&alias, &mut env, &mut reporter), Ok(()));
    assert_eq!(
        env.look_type(Symbol(1)),
        Some(&Entry::TyCon(TyCon::Fun(vec![TypeVar(0)], Box::new(Type::Var(TypeVar(0))))))
    );
}

#[test]
fn struct_identities_are_fresh() {
    let (infer, mut env, mut reporter) = setup();
    infer.trans_struct(&struct_decl(1, vec![], vec![]), &mut env, &mut reporter).unwrap();
    infer.trans_struct(&struct_decl(2, vec![], vec![]), &mut env, &mut reporter).unwrap();
    assert_eq!(
        env.look_type(Symbol(1)),
        Some(&Entry::Ty(Type::Poly(vec![], Box::new(Type::Struct(Symbol(1), vec![], Unique(0))))))
    );
    assert_eq!(
        env.look_type(Symbol(2)),
        Some(&Entry::Ty(Type::Poly(vec![], Box::new(Type::Struct(Symbol(2), vec![], Unique(1))))))
    );
}

// ---------------------------------------------------------------- statements

#[test]
fn let_binds_the_type_of_its_value() {
    let (infer, mut env, mut reporter) = setup();
    assert_eq!(infer.trans_statement(&let_stmt(1, None, Some(num(3, 0))), &mut env, &mut reporter), Ok(Type::Nil));
    assert_eq!(env.look_var(Symbol(1)), Some(&i32_ty()));
    assert_eq!(expr_type(&infer, &mut env, &mut reporter, var(1, 0)), Ok(i32_ty()));
}

#[test]
fn annotated_let_checks_but_does_not_bind() {
    let (infer, mut env, mut reporter) = setup();
    let good = let_stmt(1, Some(sp(Ty::I32, 0)), Some(num(3, 0)));
    assert_eq!(infer.trans_statement(&good, &mut env, &mut reporter), Ok(Type::Nil));
    assert_eq!(env.look_var(Symbol(1)), None);
    let bad = let_stmt(2, Some(sp(Ty::Bool, 8)), Some(num(3, 0)));
    assert_eq!(infer.trans_statement(&bad, &mut env, &mut reporter), Err(()));
    assert_eq!(reporter.diagnostics, vec![diag(ErrorKind::Mismatch(i32_ty(), bool_ty()), at(8, 9))]);
}

#[test]
fn let_without_value_binds_its_annotation_or_nil() {
    let (infer, mut env, mut reporter) = setup();
    infer.trans_statement(&let_stmt(1, Some(sp(Ty::Bool, 0)), None), &mut env, &mut reporter).unwrap();
    infer.trans_statement(&let_stmt(2, None, None), &mut env, &mut reporter).unwrap();
    assert_eq!(env.look_var(Symbol(1)), Some(&bool_ty()));
    assert_eq!(env.look_var(Symbol(2)), Some(&Type::Nil));
}

#[test]
fn block_yields_its_last_statement() {
    let (infer, mut env, mut reporter) = setup();
    let block = sp(Statement::Block(vec![let_stmt(1, None, Some(tru(0))), ret(var(1, 0))]), 0);
    assert_eq!(infer.trans_statement(&block, &mut env, &mut reporter), Ok(bool_ty()));
    let empty = sp(Statement::Block(vec![]), 0);
    assert_eq!(infer.trans_statement(&empty, &mut env, &mut reporter), Ok(Type::Nil));
    assert_eq!(infer.trans_statement(&sp(Statement::Break, 0), &mut env, &mut reporter), Ok(Type::Nil));
    assert_eq!(infer.trans_statement(&sp(Statement::Continue, 0), &mut env, &mut reporter), Ok(Type::Nil));
    assert_eq!(infer.trans_statement(&sp(Statement::Expr(num(1, 0)), 0), &mut env, &mut reporter), Ok(Type::Nil));
}

#[test]
fn if_condition_must_be_bool() {
    let (infer, mut env, mut reporter) = setup();
    let s = sp(Statement::If { cond: num(1, 4), then: Box::new(ret(tru(0))), otherwise: None }, 0);
    assert_eq!(infer.trans_statement(&s, &mut env, &mut reporter), Err(()));
    assert_eq!(reporter.diagnostics, vec![diag(ErrorKind::Mismatch(bool_ty(), i32_ty()), at(4, 5))]);
}

#[test]
fn if_branches_must_agree() {
    let (infer, mut env, mut reporter) = setup();
    let agree = sp(Statement::If { cond: tru(0), then: Box::new(ret(num(1, 0))), otherwise: Some(Box::new(ret(num(2, 0)))) }, 0);
    assert_eq!(infer.trans_statement(&agree, &mut env, &mut reporter), Ok(i32_ty()));
    let other = sp(Statement::Return(tru(0)), 7);
    let differ = sp(Statement::If { cond: tru(0), then: Box::new(ret(num(1, 0))), otherwise: Some(Box::new(other)) }, 0);
    assert_eq!(infer.trans_statement(&differ, &mut env, &mut reporter), Err(()));
    assert_eq!(reporter.diagnostics, vec![diag(ErrorKind::Mismatch(i32_ty(), bool_ty()), at(7, 8))]);
}

#[test]
fn while_checks_its_condition_and_yields_nil() {
    let (infer, mut env, mut reporter) = setup();
    let ok = sp(Statement::While { cond: tru(0), body: Box::new(ret(num(1, 0))) }, 0);
    assert_eq!(infer.trans_statement(&ok, &mut env, &mut reporter), Ok(Type::Nil));
    let bad = sp(Statement::While { cond: string(3), body: Box::new(ret(num(1, 0))) }, 0);
    assert_eq!(infer.trans_statement(&bad, &mut env, &mut reporter), Err(()));
    assert_eq!(reporter.diagnostics, vec![diag(ErrorKind::Mismatch(bool_ty(), str_ty()), at(3, 4))]);
}

#[test]
fn for_increment_must_be_an_integer() {
    let (infer, mut env, mut reporter) = setup();
    let ok = sp(
        Statement::For {
            init: Some(Box::new(let_stmt(1, None, Some(num(0, 0))))),
            cond: Some(binary(var(1, 0), Op::LT, num(9, 0), 0)),
            incr: Some(num(1, 0)),
            body: Box::new(ret(tru(0))),
        },
        0,
    );
    assert_eq!(infer.trans_statement(&ok, &mut env, &mut reporter), Ok(Type::Nil));
    let bad = sp(Statement::For { init: None, cond: None, incr: Some(tru(5)), body: Box::new(ret(num(1, 0))) }, 0);
    assert_eq!(infer.trans_statement(&bad, &mut env, &mut reporter), Err(()));
    assert_eq!(reporter.diagnostics, vec![diag(ErrorKind::IncrementNotInt, at(5, 6))]);
}

#[test]
fn bare_for_yields_its_body() {
    let (infer, mut env, mut reporter) = setup();
    let s = sp(Statement::For { init: None, cond: None, incr: None, body: Box::new(ret(tru(0))) }, 0);
    assert_eq!(infer.trans_statement(&s, &mut env, &mut reporter), Ok(bool_ty()));
}

// ---------------------------------------------------------------- expressions

#[test]
fn literals_have_their_types() {
    let (infer, mut env, mut reporter) = setup();
    let cases = vec![
        (Literal::Char('a'), Type::App(TyCon::Int(Sign::Unsigned, Size::Bit8), vec![])),
        (Literal::True(true), bool_ty()),
        (Literal::False(false), bool_ty()),
        (Literal::Str(String::from("s")), str_ty()),
        (Literal::Number(Number { value: 1, ty: None }), i32_ty()),
        (
            Literal::Number(Number { value: 1, ty: Some((Sign::Unsigned, Size::Bit64)) }),
            Type::App(TyCon::Int(Sign::Unsigned, Size::Bit64), vec![]),
        ),
        (Literal::Nil, Type::App(TyCon::Void, vec![])),
    ];
    for (l, expected) in cases {
        assert_eq!(expr_type(&infer, &mut env, &mut reporter, sp(Expression::Literal(l), 0)), Ok(expected));
    }
}

#[test]
fn comparisons_yield_bool() {
    let (infer, mut env, mut reporter) = setup();
    assert_eq!(expr_type(&infer, &mut env, &mut reporter, binary(num(1, 0), Op::LT, num(2, 0), 0)), Ok(bool_ty()));
    assert_eq!(expr_type(&infer, &mut env, &mut reporter, binary(num(1, 0), Op::Equal, tru(0), 0)), Ok(bool_ty()));
    assert!(reporter.diagnostics.is_empty());
    assert_eq!(expr_type(&infer, &mut env, &mut reporter, binary(num(1, 0), Op::GT, tru(0), 6)), Err(()));
    assert_eq!(reporter.diagnostics, vec![diag(ErrorKind::Mismatch(i32_ty(), bool_ty()), at(6, 7))]);
}

#[test]
fn arithmetic_falls_back_to_strings() {
    let (infer, mut env, mut reporter) = setup();
    assert_eq!(expr_type(&infer, &mut env, &mut reporter, binary(num(1, 0), Op::Plus, num(2, 0), 0)), Ok(i32_ty()));
    assert!(reporter.diagnostics.is_empty());
    assert_eq!(expr_type(&infer, &mut env, &mut reporter, binary(string(0), Op::Plus, num(2, 0), 4)), Ok(str_ty()));
    assert_eq!(reporter.diagnostics, vec![diag(ErrorKind::Mismatch(str_ty(), i32_ty()), at(4, 5))]);
    assert_eq!(expr_type(&infer, &mut env, &mut reporter, binary(num(1, 0), Op::Star, tru(0), 6)), Err(()));
    assert_eq!(reporter.diagnostics.len(), 3);
    assert_eq!(reporter.diagnostics[2], diag(ErrorKind::Mismatch(i32_ty(), str_ty()), at(6, 7)));
}

#[test]
fn casts_are_checked() {
    let (infer, mut env, mut reporter) = setup();
    let to_u8 = |e: Spanned<Expression>| sp(Expression::Cast { from: Box::new(e), to: sp(Ty::U8, 0) }, 3);
    let u8_ty = Type::App(TyCon::Int(Sign::Unsigned, Size::Bit8), vec![]);
    assert_eq!(expr_type(&infer, &mut env, &mut reporter, to_u8(num(1, 0))), Ok(u8_ty.deep_clone()));
    assert_eq!(expr_type(&infer, &mut env, &mut reporter, to_u8(tru(0))), Ok(u8_ty.deep_clone()));
    assert_eq!(expr_type(&infer, &mut env, &mut reporter, to_u8(string(0))), Err(()));
    assert_eq!(reporter.diagnostics, vec![diag(ErrorKind::CannotCast(str_ty(), u8_ty), at(3, 4))]);
}

#[test]
fn cast_check_allows_integers_and_bools_to_integers() {
    assert_eq!(cast_check(&i32_ty(), &i32_ty()), Ok(()));
    assert_eq!(cast_check(&bool_ty(), &i32_ty()), Ok(()));
    assert_eq!(cast_check(&i32_ty(), &bool_ty()), Err(()));
    assert_eq!(cast_check(&str_ty(), &i32_ty()), Err(()));
}

#[test]
fn unary_operators() {
    let (infer, mut env, mut reporter) = setup();
    let neg = |e: Spanned<Expression>| sp(Expression::Unary { op: sp(UnaryOp::Minus, 0), expr: Box::new(e) }, 0);
    let not = |e: Spanned<Expression>| sp(Expression::Unary { op: sp(UnaryOp::Bang, 0), expr: Box::new(e) }, 0);
    assert_eq!(expr_type(&infer, &mut env, &mut reporter, neg(num(1, 0))), Ok(i32_ty()));
    assert_eq!(expr_type(&infer, &mut env, &mut reporter, not(num(1, 0))), Ok(bool_ty()));
    assert_eq!(expr_type(&infer, &mut env, &mut reporter, neg(tru(8))), Err(()));
    assert_eq!(reporter.diagnostics, vec![diag(ErrorKind::NegateNonInt(bool_ty()), at(8, 9))]);
}

#[test]
fn grouping_has_the_type_inside() {
    let (infer, mut env, mut reporter) = setup();
    let g = sp(Expression::Grouping { expr: Box::new(tru(0)) }, 0);
    assert_eq!(expr_type(&infer, &mut env, &mut reporter, g), Ok(bool_ty()));
}

#[test]
fn variables_must_be_defined() {
    let (infer, mut env, mut reporter) = setup();
    assert_eq!(expr_type(&infer, &mut env, &mut reporter, var(4, 2)), Err(()));
    assert_eq!(reporter.diagnostics, vec![diag(ErrorKind::UndefinedVariable(Symbol(4)), at(2, 3))]);
}

#[test]
fn assignment_needs_agreeing_types() {
    let (infer, mut env, mut reporter) = setup();
    infer.trans_statement(&let_stmt(1, None, Some(num(1, 0))), &mut env, &mut reporter).unwrap();
    let assign = |e: Spanned<Expression>| {
        sp(Expression::Assign { name: sp(Var::Simple(name(1, 0)), 0), value: Box::new(e) }, 5)
    };
    assert_eq!(expr_type(&infer, &mut env, &mut reporter, assign(num(2, 0))), Ok(i32_ty()));
    assert_eq!(expr_type(&infer, &mut env, &mut reporter, assign(tru(0))), Err(()));
    assert_eq!(reporter.diagnostics, vec![diag(ErrorKind::Mismatch(i32_ty(), bool_ty()), at(5, 6))]);
}

fn point_env() -> (Infer, Env, Reporter) {
    let (infer, mut env, mut reporter) = setup();
    let point = struct_decl(1, vec![], vec![(2, sp(Ty::I32, 0)), (3, sp(Ty::Bool, 0))]);
    infer.trans_struct(&point, &mut env, &mut reporter).unwrap();
    (infer, env, reporter)
}

fn point_lit(fields: Vec<Spanned<StructLitField>>) -> Spanned<Expression> {
    sp(Expression::StructLit(sp(StructLit::Simple { ident: name(1, 1), fields }, 20)), 20)
}

#[test]
fn struct_literal_has_the_struct_type() {
    let (infer, mut env, mut reporter) = point_env();
    let lit = point_lit(vec![lit_field(2, num(1, 0), 0), lit_field(3, tru(0), 0)]);
    let expected = Type::Struct(
        Symbol(1),
        vec![Field { name: Symbol(2), ty: i32_ty() }, Field { name: Symbol(3), ty: bool_ty() }],
        Unique(0),
    );
    assert_eq!(expr_type(&infer, &mut env, &mut reporter, lit), Ok(expected));
    assert!(reporter.diagnostics.is_empty());
}

#[test]
fn struct_literal_field_errors() {
    let (infer, mut env, mut reporter) = point_env();
    let missing = point_lit(vec![lit_field(2, num(1, 0), 0)]);
    assert_eq!(expr_type(&infer, &mut env, &mut reporter, missing), Err(()));
    assert_eq!(reporter.diagnostics, vec![diag(ErrorKind::MissingFields(Symbol(1)), at(20, 21))]);
    let extra = point_lit(vec![lit_field(2, num(1, 0), 0), lit_field(3, tru(0), 0), lit_field(4, tru(0), 0)]);
    assert_eq!(expr_type(&infer, &mut env, &mut reporter, extra), Err(()));
    assert_eq!(reporter.diagnostics[1], diag(ErrorKind::TooManyFields(Symbol(1)), at(20, 21)));
    let wrong = point_lit(vec![lit_field(2, num(1, 0), 0), lit_field(9, tru(0), 7)]);
    assert_eq!(expr_type(&infer, &mut env, &mut reporter, wrong), Err(()));
    assert_eq!(reporter.diagnostics[2], diag(ErrorKind::NotAMember { field: Symbol(9), owner: Symbol(1) }, at(7, 8)));
    assert_eq!(reporter.diagnostics.len(), 3);
    let mistyped = point_lit(vec![lit_field(2, tru(0), 11), lit_field(3, tru(0), 0)]);
    assert_eq!(expr_type(&infer, &mut env, &mut reporter, mistyped), Err(()));
    assert_eq!(reporter.diagnostics[3], diag(ErrorKind::Mismatch(i32_ty(), bool_ty()), at(11, 12)));
}

#[test]
fn empty_struct_literal_fails_silently() {
    let (infer, mut env, mut reporter) = setup();
    infer.trans_struct(&struct_decl(1, vec![], vec![]), &mut env, &mut reporter).unwrap();
    assert_eq!(expr_type(&infer, &mut env, &mut reporter, point_lit(vec![])), Err(()));
    assert!(reporter.diagnostics.is_empty());
}

#[test]
fn struct_literal_of_what_is_not_a_struct() {
    let (infer, mut env, mut reporter) = setup();
    assert_eq!(expr_type(&infer, &mut env, &mut reporter, point_lit(vec![])), Err(()));
    let alias = sp(TyAlias { ident: item(1, vec![]), ty: sp(Ty::I32, 0) }, 0);
    infer.trans_alias(&alias, &mut env, &mut reporter).unwrap();
    assert_eq!(expr_type(&infer, &mut env, &mut reporter, point_lit(vec![])), Err(()));
    let inst = sp(
        Expression::StructLit(sp(StructLit::Instantiation { ident: name(1, 1), fields: vec![], tys: sp(vec![], 0) }, 0)),
        0,
    );
    assert_eq!(expr_type(&infer, &mut env, &mut reporter, inst), Err(()));
    assert_eq!(
        reporter.diagnostics,
        vec![
            diag(ErrorKind::UndefinedStruct(Symbol(1)), at(1, 2)),
            diag(ErrorKind::NotAStruct(Symbol(1)), at(1, 2)),
            diag(ErrorKind::NotInstantiable(Symbol(1)), at(1, 2)),
        ]
    );
}

#[test]
fn generic_struct_literals() {
    let (infer, mut env, mut reporter) = setup();
    let wrap = struct_decl(1, vec![10], vec![(2, simple_ty(10, 0))]);
    infer.trans_struct(&wrap, &mut env, &mut reporter).unwrap();
    let simple = sp(
        Expression::StructLit(sp(StructLit::Simple { ident: name(1, 0), fields: vec![lit_field(2, num(1, 0), 0)] }, 0)),
        0,
    );
    let expected = Type::Struct(Symbol(1), vec![Field { name: Symbol(2), ty: i32_ty() }], Unique(0));
    assert_eq!(expr_type(&infer, &mut env, &mut reporter, simple), Ok(expected.deep_clone()));
    let inst = |tys: Vec<Spanned<Ty>>, e: Spanned<Expression>| {
        sp(
            Expression::StructLit(sp(
                StructLit::Instantiation { ident: name(1, 0), fields: vec![lit_field(2, e, 6)], tys: sp(tys, 3) },
                0,
            )),
            0,
        )
    };
    assert_eq!(expr_type(&infer, &mut env, &mut reporter, inst(vec![sp(Ty::I32, 0)], num(1, 0))), Ok(expected));
    assert!(reporter.diagnostics.is_empty());
    assert_eq!(expr_type(&infer, &mut env, &mut reporter, inst(vec![sp(Ty::Bool, 0)], num(1, 0))), Err(()));
    assert_eq!(reporter.diagnostics, vec![diag(ErrorKind::Mismatch(i32_ty(), bool_ty()), at(6, 7))]);
    assert_eq!(expr_type(&infer, &mut env, &mut reporter, inst(vec![], num(1, 0))), Err(()));
    assert_eq!(reporter.diagnostics[1], diag(ErrorKind::TypeParamCount { found: 0, expected: 1 }, at(3, 4)));
}

#[test]
fn field_access() {
    let (infer, mut env, mut reporter) = point_env();
    let lit = point_lit(vec![lit_field(2, num(1, 0), 0), lit_field(3, tru(0), 0)]);
    infer.trans_statement(&let_stmt(5, None, Some(lit)), &mut env, &mut reporter).unwrap();
    infer.trans_statement(&let_stmt(6, None, Some(num(1, 0))), &mut env, &mut reporter).unwrap();
    let field = |v: u32, f: u32| {
        sp(Expression::Var(sp(Var::Field { ident: name(v, 0), value: name(f, 0) }, 9)), 9)
    };
    assert_eq!(expr_type(&infer, &mut env, &mut reporter, field(5, 3)), Ok(bool_ty()));
    assert!(reporter.diagnostics.is_empty());
    assert_eq!(expr_type(&infer, &mut env, &mut reporter, field(5, 8)), Err(()));
    assert_eq!(expr_type(&infer, &mut env, &mut reporter, field(6, 8)), Err(()));
    assert_eq!(expr_type(&infer, &mut env, &mut reporter, field(7, 8)), Err(()));
    assert_eq!(
        reporter.diagnostics,
        vec![
            diag(ErrorKind::NoSuchField { owner: Symbol(1), field: Symbol(8) }, at(9, 10)),
            diag(ErrorKind::NoFieldOnType(i32_ty(), Symbol(8)), at(9, 10)),
            diag(ErrorKind::UndefinedVariable(Symbol(7)), at(9, 10)),
        ]
    );
}

#[test]
fn subscripts_never_type() {
    let (infer, mut env, mut reporter) = setup();
    infer.trans_statement(&let_stmt(1, None, Some(string(0))), &mut env, &mut reporter).unwrap();
    infer.trans_statement(&let_stmt(2, None, Some(num(1, 0))), &mut env, &mut reporter).unwrap();
    let index = |t: u32, e: Spanned<Expression>| {
        sp(Expression::Var(sp(Var::SubScript { target: name(t, 4), expr: Box::new(e) }, 9)), 9)
    };
    assert_eq!(expr_type(&infer, &mut env, &mut reporter, index(1, num(0, 0))), Err(()));
    assert_eq!(expr_type(&infer, &mut env, &mut reporter, index(2, num(0, 0))), Err(()));
    assert_eq!(expr_type(&infer, &mut env, &mut reporter, index(2, tru(0))), Err(()));
    assert_eq!(
        reporter.diagnostics,
        vec![
            diag(ErrorKind::CannotIndex(str_ty()), at(4, 5)),
            diag(ErrorKind::CannotIndex(i32_ty()), at(4, 5)),
            diag(ErrorKind::IndexNotInt(bool_ty()), at(9, 10)),
        ]
    );
}

// ---------------------------------------------------------------- functions and calls

#[test]
fn function_declaration_binds_its_type_and_drops_its_locals() {
    let (infer, mut env, mut reporter) = setup();
    let f = function(
        1,
        vec![],
        vec![(2, sp(Ty::I32, 0))],
        Some(sp(Ty::I32, 0)),
        vec![let_stmt(3, None, Some(var(2, 0))), ret(var(3, 0))],
    );
    assert_eq!(infer.trans_function(&f, &mut env, &mut reporter), Ok(()));
    assert!(reporter.diagnostics.is_empty());
    assert_eq!(
        env.look_var(Symbol(1)),
        Some(&Type::Poly(vec![], Box::new(Type::App(TyCon::Arrow, vec![i32_ty(), i32_ty()]))))
    );
    assert_eq!(env.look_var(Symbol(2)), None);
    assert_eq!(env.look_var(Symbol(3)), None);
}

#[test]
fn function_without_return_type_returns_nil() {
    let (infer, mut env, mut reporter) = setup();
    let f = function(1, vec![], vec![], None, vec![]);
    assert_eq!(infer.trans_function(&f, &mut env, &mut reporter), Ok(()));
    assert_eq!(env.look_var(Symbol(1)), Some(&Type::Poly(vec![], Box::new(Type::App(TyCon::Arrow, vec![Type::Nil])))));
}

#[test]
fn function_body_must_match_return_type() {
    let (infer, mut env, mut reporter) = setup();
    let f = function(1, vec![], vec![(2, sp(Ty::I32, 0))], Some(sp(Ty::Bool, 0)), vec![ret(num(1, 0))]);
    assert_eq!(infer.trans_function(&f, &mut env, &mut reporter), Err(()));
    assert_eq!(reporter.diagnostics, vec![diag(ErrorKind::Mismatch(bool_ty(), i32_ty()), at(90, 91))]);
    // The scope of the failed function stays open.
    assert_eq!(env.look_var(Symbol(2)), Some(&i32_ty()));
}

fn declare_id(infer: &Infer, env: &mut Env, reporter: &mut Reporter) {
    let id = function(1, vec![10], vec![(2, simple_ty(10, 0))], Some(simple_ty(10, 0)), vec![ret(var(2, 0))]);
    infer.trans_function(&id, env, reporter).unwrap();
}

#[test]
fn generic_function_call_takes_the_argument_type() {
    let (infer, mut env, mut reporter) = setup();
    declare_id(&infer, &mut env, &mut reporter);
    assert_eq!(expr_type(&infer, &mut env, &mut reporter, call(1, vec![num(1, 0)], 0)), Ok(i32_ty()));
    assert_eq!(expr_type(&infer, &mut env, &mut reporter, call(1, vec![tru(0)], 0)), Ok(bool_ty()));
    assert!(reporter.diagnostics.is_empty());
}

#[test]
fn calls_check_arity_and_callee() {
    let (infer, mut env, mut reporter) = setup();
    declare_id(&infer, &mut env, &mut reporter);
    infer.trans_statement(&let_stmt(5, None, Some(num(1, 0))), &mut env, &mut reporter).unwrap();
    assert_eq!(expr_type(&infer, &mut env, &mut reporter, call(1, vec![], 3)), Err(()));
    assert_eq!(expr_type(&infer, &mut env, &mut reporter, call(9, vec![], 4)), Err(()));
    assert_eq!(expr_type(&infer, &mut env, &mut reporter, call(5, vec![], 6)), Err(()));
    assert_eq!(
        reporter.diagnostics,
        vec![
            diag(ErrorKind::ArgCount { expected: 1, found: 0 }, at(3, 4)),
            diag(ErrorKind::UndefinedFunction(Symbol(9)), at(4, 5)),
            diag(ErrorKind::NotCallable(Symbol(5)), at(6, 7)),
        ]
    );
}

#[test]
fn arguments_of_a_plain_function_are_not_checked() {
    let (infer, mut env, mut reporter) = setup();
    let f = function(1, vec![], vec![(2, sp(Ty::I32, 0))], Some(sp(Ty::I32, 0)), vec![ret(var(2, 0))]);
    infer.trans_function(&f, &mut env, &mut reporter).unwrap();
    assert_eq!(expr_type(&infer, &mut env, &mut reporter, call(1, vec![tru(0)], 0)), Ok(i32_ty()));
    assert!(reporter.diagnostics.is_empty());
}

#[test]
fn explicit_instantiation() {
    let (infer, mut env, mut reporter) = setup();
    declare_id(&infer, &mut env, &mut reporter);
    let inst = |tys: Vec<Spanned<Ty>>, args: Vec<Spanned<Expression>>| {
        sp(Expression::Call(sp(Call::Instantiation { callee: name(1, 0), tys: sp(tys, 2), args }, 0)), 0)
    };
    assert_eq!(expr_type(&infer, &mut env, &mut reporter, inst(vec![sp(Ty::I32, 0)], vec![num(1, 0)])), Ok(i32_ty()));
    assert!(reporter.diagnostics.is_empty());
    assert_eq!(expr_type(&infer, &mut env, &mut reporter, inst(vec![sp(Ty::Bool, 0)], vec![num(1, 5)])), Err(()));
    assert_eq!(reporter.diagnostics, vec![diag(ErrorKind::Mismatch(i32_ty(), bool_ty()), at(5, 6))]);
    let two = vec![sp(Ty::I32, 0), sp(Ty::I32, 0)];
    assert_eq!(expr_type(&infer, &mut env, &mut reporter, inst(two, vec![num(1, 0)])), Err(()));
    assert_eq!(reporter.diagnostics[1], diag(ErrorKind::TypeParamCount { found: 2, expected: 1 }, at(2, 3)));
}

// ---------------------------------------------------------------- environment, substitution, unification

#[test]
fn closing_a_scope_restores_the_bindings() {
    let mut env = Env::new();
    env.add_var(Symbol(1), i32_ty());
    env.begin_scope();
    env.add_var(Symbol(1), bool_ty());
    env.add_var(Symbol(2), bool_ty());
    assert_eq!(env.look_var(Symbol(1)), Some(&bool_ty()));
    env.end_scope();
    assert_eq!(env.look_var(Symbol(1)), Some(&i32_ty()));
    assert_eq!(env.look_var(Symbol(2)), None);
    env.end_scope();
    assert_eq!(env.look_var(Symbol(1)), Some(&i32_ty()));
}

#[test]
fn lookup_after_add() {
    let mut env = Env::new();
    env.add_type(Symbol(1), Entry::Ty(bool_ty()));
    env.add_var(Symbol(2), str_ty());
    assert_eq!(env.look_type(Symbol(1)), Some(&Entry::Ty(bool_ty())));
    assert_eq!(env.look_var(Symbol(2)), Some(&str_ty()));
    assert_eq!(env.look_var(Symbol(1)), None);
    assert_eq!(env.look_type(Symbol(2)), None);
}

#[test]
fn fresh_variables_are_distinct() {
    let mut env = Env::new();
    assert_eq!(env.fresh_tyvar(), TypeVar(0));
    assert_eq!(env.fresh_tyvar(), TypeVar(1));
    assert_eq!(env.fresh_unique(), Unique(0));
    assert_eq!(env.fresh_unique(), Unique(1));
}

#[test]
fn substitution() {
    let infer = Infer::new();
    let t = Type::App(TyCon::Arrow, vec![Type::Var(TypeVar(0)), Type::Var(TypeVar(1))]);
    assert_eq!(infer.subst(&t, &Subst::new()), t.deep_clone());
    let mut m = Subst::new();
    m.insert(TypeVar(0), i32_ty());
    m.insert(TypeVar(0), bool_ty());
    assert_eq!(infer.subst(&t, &m), Type::App(TyCon::Arrow, vec![bool_ty(), Type::Var(TypeVar(1))]));
    let z = Subst::zip(&vec![TypeVar(1), TypeVar(2)], &vec![str_ty()]);
    assert_eq!(infer.subst(&t, &z), Type::App(TyCon::Arrow, vec![Type::Var(TypeVar(0)), str_ty()]));
}

#[test]
fn unification_is_reflexive_and_symmetric() {
    let infer = Infer::new();
    let mut env = Env::new();
    let mut reporter = Reporter::new();
    let f = Type::App(TyCon::Arrow, vec![i32_ty(), bool_ty()]);
    let g = Type::App(TyCon::Arrow, vec![i32_ty(), str_ty()]);
    assert_eq!(infer.unify(&f, &f, &mut reporter, at(0, 1), &mut env), Ok(()));
    assert!(reporter.diagnostics.is_empty());
    assert_eq!(infer.unify(&f, &g, &mut reporter, at(0, 1), &mut env), Err(()));
    assert_eq!(infer.unify(&g, &f, &mut reporter, at(0, 1), &mut env), Err(()));
    assert_eq!(
        reporter.diagnostics,
        vec![
            diag(ErrorKind::Mismatch(bool_ty(), str_ty()), at(0, 1)),
            diag(ErrorKind::Mismatch(str_ty(), bool_ty()), at(0, 1)),
        ]
    );
}

#[test]
fn struct_types_unify_by_identity() {
    let infer = Infer::new();
    let mut env = Env::new();
    let mut reporter = Reporter::new();
    let a = Type::Struct(Symbol(1), vec![], Unique(0));
    let b = Type::Struct(Symbol(1), vec![Field { name: Symbol(2), ty: i32_ty() }], Unique(0));
    let c = Type::Struct(Symbol(1), vec![], Unique(1));
    assert_eq!(infer.unify(&a, &b, &mut reporter, at(0, 1), &mut env), Ok(()));
    assert_eq!(infer.unify(&a, &c, &mut reporter, at(0, 1), &mut env), Err(()));
    assert_eq!(reporter.diagnostics.len(), 1);
}

#[test]
fn statements_leave_the_type_namespace_alone() {
    let (infer, mut env, mut reporter) = setup();
    let alias = sp(TyAlias { ident: item(1, vec![]), ty: sp(Ty::I32, 0) }, 0);
    infer.trans_alias(&alias, &mut env, &mut reporter).unwrap();
    infer.trans_statement(&let_stmt(2, None, Some(tru(0))), &mut env, &mut reporter).unwrap();
    let block = sp(Statement::Block(vec![let_stmt(3, None, Some(num(1, 0))), ret(var(2, 0))]), 0);
    assert_eq!(infer.trans_statement(&block, &mut env, &mut reporter), Ok(bool_ty()));
    assert_eq!(env.look_type(Symbol(1)), Some(&Entry::Ty(i32_ty())));
    assert_eq!(env.look_type(Symbol(2)), None);
    assert_eq!(env.look_var(Symbol(2)), Some(&bool_ty()));
    assert_eq!(env.look_var(Symbol(3)), Some(&i32_ty()));
}

#[test]
fn reporter_collects_in_order() {
    let mut reporter = Reporter::new();
    assert!(!reporter.has_errors());
    reporter.error(ErrorKind::IncrementNotInt, at(1, 2));
    reporter.error(ErrorKind::UndefinedType(Symbol(3)), at(4, 5));
    assert!(reporter.has_errors());
    assert_eq!(
        reporter.diagnostics,
        vec![diag(ErrorKind::IncrementNotInt, at(1, 2)), diag(ErrorKind::UndefinedType(Symbol(3)), at(4, 5))]
    );
}

#[test]
fn a_whole_program_checks() {
    // struct Pair<A> { fst: A, snd: bool }
    // fn make<T>(x: T) -> Pair<T> { return Pair { fst: x, snd: true }; }
    // fn main() { let p = make(1); let n = p.fst; return n; }
    let (infer, mut env, mut reporter) = setup();
    let pair = struct_decl(1, vec![10], vec![(2, simple_ty(10, 0)), (3, sp(Ty::Bool, 0))]);
    assert_eq!(infer.trans_struct(&pair, &mut env, &mut reporter), Ok(()));
    let lit = sp(
        Expression::StructLit(sp(
            StructLit::Simple { ident: name(1, 0), fields: vec![lit_field(2, var(5, 0), 0), lit_field(3, tru(0), 0)] },
            0,
        )),
        0,
    );
    let pair_of_t = sp(Ty::Poly(name(1, 0), vec![simple_ty(11, 0)]), 0);
    let make = function(4, vec![11], vec![(5, simple_ty(11, 0))], Some(pair_of_t), vec![ret(lit)]);
    assert_eq!(infer.trans_function(&make, &mut env, &mut reporter), Ok(()));
    let field = sp(Expression::Var(sp(Var::Field { ident: name(7, 0), value: name(2, 0) }, 0)), 0);
    let main = function(
        6,
        vec![],
        vec![],
        Some(sp(Ty::I32, 0)),
        vec![let_stmt(7, None, Some(call(4, vec![num(1, 0)], 0))), let_stmt(8, None, Some(field)), ret(var(8, 0))],
    );
    assert_eq!(infer.trans_function(&main, &mut env, &mut reporter), Ok(()));
    assert!(reporter.diagnostics.is_empty());
}

// ---------------------------------------------------------------- laws on concrete values

#[test]
fn failed_type_translation_reports_an_error() {
    let (infer, mut env, mut reporter) = setup();
    let good = sp(Ty::Func(vec![sp(Ty::Bool, 0)], None), 0);
    assert!(infer.trans_ty(&good, &mut env, &mut reporter).is_ok());
    assert!(reporter.diagnostics.is_empty());
    let bad = sp(Ty::Func(vec![sp(Ty::Bool, 0), simple_ty(7, 3)], Some(Box::new(simple_ty(8, 5)))), 0);
    assert_eq!(infer.trans_ty(&bad, &mut env, &mut reporter), Err(()));
    assert_eq!(reporter.diagnostics, vec![diag(ErrorKind::UndefinedType(Symbol(7)), at(3, 4))]);
}

#[test]
fn type_translation_depends_only_on_type_bindings() {
    let (infer, mut env1, mut r1) = setup();
    let (_, mut env2, mut r2) = setup();
    let alias = sp(TyAlias { ident: item(1, vec![]), ty: sp(Ty::U8, 0) }, 0);
    infer.trans_alias(&alias, &mut env1, &mut r1).unwrap();
    infer.trans_alias(&alias, &mut env2, &mut r2).unwrap();
    infer.trans_statement(&let_stmt(4, None, Some(tru(0))), &mut env1, &mut r1).unwrap();
    let ty = sp(Ty::Func(vec![simple_ty(1, 0), simple_ty(9, 2)], None), 0);
    let a = infer.trans_ty(&ty, &mut env1, &mut r1);
    let b = infer.trans_ty(&ty, &mut env2, &mut r2);
    assert_eq!(a, b);
    assert_eq!(r1.diagnostics, r2.diagnostics);
}

#[test]
fn alias_stays_transparent_after_later_declarations() {
    let (infer, mut env, mut reporter) = setup();
    let alias = sp(TyAlias { ident: item(1, vec![]), ty: sp(Ty::Bool, 0) }, 0);
    infer.trans_alias(&alias, &mut env, &mut reporter).unwrap();
    infer.trans_struct(&struct_decl(2, vec![3], vec![(4, simple_ty(3, 0))]), &mut env, &mut reporter).unwrap();
    infer.trans_statement(&let_stmt(5, None, Some(num(1, 0))), &mut env, &mut reporter).unwrap();
    infer.trans_function(&function(6, vec![], vec![(7, sp(Ty::I32, 0))], None, vec![]), &mut env, &mut reporter).unwrap();
    assert_eq!(infer.trans_ty(&simple_ty(1, 0), &mut env, &mut reporter), Ok(bool_ty()));
    assert!(reporter.diagnostics.is_empty());
}

#[test]
fn struct_identities_differ_across_other_declarations() {
    let (infer, mut env, mut reporter) = setup();
    infer.trans_struct(&struct_decl(1, vec![], vec![]), &mut env, &mut reporter).unwrap();
    let alias = sp(TyAlias { ident: item(2, vec![]), ty: sp(Ty::Bool, 0) }, 0);
    infer.trans_alias(&alias, &mut env, &mut reporter).unwrap();
    infer.trans_function(&function(3, vec![], vec![], None, vec![]), &mut env, &mut reporter).unwrap();
    infer.trans_statement(&let_stmt(4, None, Some(num(1, 0))), &mut env, &mut reporter).unwrap();
    infer.trans_struct(&struct_decl(5, vec![], vec![]), &mut env, &mut reporter).unwrap();
    assert_eq!(
        env.look_type(Symbol(1)),
        Some(&Entry::Ty(Type::Poly(vec![], Box::new(Type::Struct(Symbol(1), vec![], Unique(0))))))
    );
    assert_eq!(
        env.look_type(Symbol(5)),
        Some(&Entry::Ty(Type::Poly(vec![], Box::new(Type::Struct(Symbol(5), vec![], Unique(1))))))
    );
}

#[test]
fn variable_lookup_reports_at_most_once() {
    let (infer, mut env, mut reporter) = setup();
    infer.trans_statement(&let_stmt(1, None, Some(num(1, 0))), &mut env, &mut reporter).unwrap();
    assert_eq!(infer.trans_var(&sp(Var::Simple(name(1, 0)), 2), &mut env, &mut reporter), Ok(i32_ty()));
    assert!(reporter.diagnostics.is_empty());
    assert_eq!(infer.trans_var(&sp(Var::Simple(name(2, 0)), 2), &mut env, &mut reporter), Err(()));
    assert_eq!(reporter.diagnostics.len(), 1);
    let field = sp(Var::Field { ident: name(1, 0), value: name(3, 0) }, 4);
    assert_eq!(infer.trans_var(&field, &mut env, &mut reporter), Err(()));
    assert_eq!(
        reporter.diagnostics,
        vec![
            diag(ErrorKind::UndefinedVariable(Symbol(2)), at(2, 3)),
            diag(ErrorKind::NoFieldOnType(i32_ty(), Symbol(3)), at(4, 5)),
        ]
    );
    assert_eq!(env.look_var(Symbol(1)), Some(&i32_ty()));
}

#[test]
fn expressions_bind_nothing() {
    let (infer, mut env, mut reporter) = setup();
    let e = binary(num(1, 0), Op::Plus, num(2, 2), 1);
    assert_eq!(infer.trans_expr(&e, &mut env, &mut reporter), Ok(i32_ty()));
    assert_eq!(env.look_var(Symbol(1)), None);
    assert!(reporter.diagnostics.is_empty());
}

#[test]
fn type_parameters_take_new_variables_on_one_environment() {
    let (infer, mut env, mut reporter) = setup();
    infer.trans_struct(&struct_decl(1, vec![2], vec![(3, simple_ty(2, 0))]), &mut env, &mut reporter).unwrap();
    let alias = sp(TyAlias { ident: item(4, vec![5]), ty: simple_ty(5, 0) }, 0);
    infer.trans_alias(&alias, &mut env, &mut reporter).unwrap();
    let first = match env.look_type(Symbol(2)) {
        Some(Entry::Ty(Type::Var(v))) => *v,
        other => panic!("unexpected binding {:?}", other),
    };
    let second = match env.look_type(Symbol(5)) {
        Some(Entry::Ty(Type::Var(v))) => *v,
        other => panic!("unexpected binding {:?}", other),
    };
    assert_ne!(first, second);
    let (left_tv, left_un) = env.fresh_names_left();
    assert!(left_tv < u32::MAX && left_un < u32::MAX);
}
