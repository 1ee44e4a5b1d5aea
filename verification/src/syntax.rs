use vstd::prelude::*;
use crate::types::{Sign, Size, Symbol};

verus! {

/// A region of the source text, by character offsets.
#[derive(PartialEq, Eq, Structural, Clone, Copy, Debug)]
pub struct Span {
    pub start: u32,
    pub end: u32,
}

/// A node of the syntax tree with the region it was read from.
#[derive(Debug)]
pub struct Spanned<T> {
    pub value: T,
    pub span: Span,
}

/// A type as written in the source.
#[derive(Debug)]
pub enum Ty {
    Bool,
    Str,
    Nil,
    U8,
    I8,
    U32,
    I32,
    U64,
    I64,
    Simple(Spanned<Symbol>),
    Poly(Spanned<Symbol>, Vec<Spanned<Ty>>),
    Func(Vec<Spanned<Ty>>, Option<Box<Spanned<Ty>>>),
}

/// The name of a declaration with its type parameters.
#[derive(Debug)]
pub struct ItemName {
    pub name: Spanned<Symbol>,
    pub type_params: Vec<Spanned<Symbol>>,
}

#[derive(Debug)]
pub struct StructField {
    pub name: Spanned<Symbol>,
    pub ty: Spanned<Ty>,
}

#[derive(Debug)]
pub struct Struct {
    pub name: Spanned<ItemName>,
    pub fields: Spanned<Vec<Spanned<StructField>>>,
}

#[derive(Debug)]
pub struct TyAlias {
    pub ident: Spanned<ItemName>,
    pub ty: Spanned<Ty>,
}

#[derive(Debug)]
pub struct FunctionParam {
    pub name: Spanned<Symbol>,
    pub ty: Spanned<Ty>,
}

#[derive(Debug)]
pub struct Function {
    pub name: Spanned<ItemName>,
    pub params: Spanned<Vec<Spanned<FunctionParam>>>,
    pub return_ty: Option<Spanned<Ty>>,
    pub body: Spanned<Statement>,
}

#[derive(Debug)]
#[allow(inconsistent_fields)]
pub enum Statement {
    Block(Vec<Spanned<Statement>>),
    Break,
    Continue,
    Expr(Spanned<Expression>),
    For {
        init: Option<Box<Spanned<Statement>>>,
        cond: Option<Spanned<Expression>>,
        incr: Option<Spanned<Expression>>,
        body: Box<Spanned<Statement>>,
    },
    If {
        cond: Spanned<Expression>,
        then: Box<Spanned<Statement>>,
        otherwise: Option<Box<Spanned<Statement>>>,
    },
    Let {
        ident: Spanned<Symbol>,
        ty: Option<Spanned<Ty>>,
        expr: Option<Spanned<Expression>>,
    },
    Return(Spanned<Expression>),
    While {
        cond: Spanned<Expression>,
        body: Box<Spanned<Statement>>,
    },
}

#[derive(PartialEq, Eq, Structural, Clone, Copy, Debug)]
pub enum Op {
    NEq,
    Equal,
    LT,
    LTE,
    GT,
    GTE,
    And,
    Or,
    Plus,
    Slash,
    Star,
    Minus,
}

#[derive(PartialEq, Eq, Structural, Clone, Copy, Debug)]
pub enum UnaryOp {
    Bang,
    Minus,
}

/// A number literal, with the integer type of its suffix, if it has one.
#[derive(Debug)]
pub struct Number {
    pub value: u64,
    pub ty: Option<(Sign, Size)>,
}

#[derive(Debug)]
pub enum Literal {
    Char(char),
    True(bool),
    False(bool),
    Str(String),
    Number(Number),
    Nil,
}

#[derive(Debug)]
pub enum Var {
    Simple(Spanned<Symbol>),
    Field { ident: Spanned<Symbol>, value: Spanned<Symbol> },
    SubScript { target: Spanned<Symbol>, expr: Box<Spanned<Expression>> },
}

#[derive(Debug)]
pub struct StructLitField {
    pub ident: Spanned<Symbol>,
    pub expr: Spanned<Expression>,
}

#[derive(Debug)]
pub enum StructLit {
    Simple { ident: Spanned<Symbol>, fields: Vec<Spanned<StructLitField>> },
    Instantiation {
        ident: Spanned<Symbol>,
        fields: Vec<Spanned<StructLitField>>,
        tys: Spanned<Vec<Spanned<Ty>>>,
    },
}

#[derive(Debug)]
pub enum Call {
    Simple { callee: Spanned<Symbol>, args: Vec<Spanned<Expression>> },
    Instantiation {
        callee: Spanned<Symbol>,
        tys: Spanned<Vec<Spanned<Ty>>>,
        args: Vec<Spanned<Expression>>,
    },
}

#[derive(Debug)]
#[allow(inconsistent_fields)]
pub enum Expression {
    Assign { name: Spanned<Var>, value: Box<Spanned<Expression>> },
    Binary { lhs: Box<Spanned<Expression>>, op: Spanned<Op>, rhs: Box<Spanned<Expression>> },
    Cast { from: Box<Spanned<Expression>>, to: Spanned<Ty> },
    Call(Spanned<Call>),
    Grouping { expr: Box<Spanned<Expression>> },
    Literal(Literal),
    StructLit(Spanned<StructLit>),
    Unary { op: Spanned<UnaryOp>, expr: Box<Spanned<Expression>> },
    Var(Spanned<Var>),
}

} // verus!
