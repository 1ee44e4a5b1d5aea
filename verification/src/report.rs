use vstd::prelude::*;
use crate::syntax::Span;
use crate::types::{Symbol, Type, VType};

verus! {

/// What went wrong; `T` is the representation of the types it names.
#[derive(PartialEq, Eq, Debug)]
pub enum ErrorKind<T> {
    /// A polymorphic type named without its type arguments.
    PolyMissingArgs(Symbol),
    UndefinedType(Symbol),
    /// Type arguments given to a type that takes none.
    NotPolymorphic(Symbol),
    /// The increment of a `for` is not an integer.
    IncrementNotInt,
    CannotCast(T, T),
    /// Unary `-` on a type that is not an integer.
    NegateNonInt(T),
    UndefinedFunction(Symbol),
    ArgCount { expected: usize, found: usize },
    NotCallable(Symbol),
    TypeParamCount { found: usize, expected: usize },
    UndefinedStruct(Symbol),
    NotAMember { field: Symbol, owner: Symbol },
    MissingFields(Symbol),
    TooManyFields(Symbol),
    NotAStruct(Symbol),
    NotInstantiable(Symbol),
    UndefinedVariable(Symbol),
    NoSuchField { owner: Symbol, field: Symbol },
    NoFieldOnType(T, Symbol),
    CannotIndex(T),
    IndexNotInt(T),
    /// Two types that were required to agree and do not.
    Mismatch(T, T),
}

/// One error, with where in the source it was found.
#[derive(PartialEq, Eq, Debug)]
pub struct Diagnostic<T> {
    pub kind: ErrorKind<T>,
    pub span: Span,
}

pub open spec fn view_kind(k: ErrorKind<Type>) -> ErrorKind<VType> {
    match k {
        ErrorKind::PolyMissingArgs(s) => ErrorKind::PolyMissingArgs(s),
        ErrorKind::UndefinedType(s) => ErrorKind::UndefinedType(s),
        ErrorKind::NotPolymorphic(s) => ErrorKind::NotPolymorphic(s),
        ErrorKind::IncrementNotInt => ErrorKind::IncrementNotInt,
        ErrorKind::CannotCast(a, b) => ErrorKind::CannotCast(a@, b@),
        ErrorKind::NegateNonInt(a) => ErrorKind::NegateNonInt(a@),
        ErrorKind::UndefinedFunction(s) => ErrorKind::UndefinedFunction(s),
        ErrorKind::ArgCount { expected, found } => ErrorKind::ArgCount { expected, found },
        ErrorKind::NotCallable(s) => ErrorKind::NotCallable(s),
        ErrorKind::TypeParamCount { found, expected } => ErrorKind::TypeParamCount { found, expected },
        ErrorKind::UndefinedStruct(s) => ErrorKind::UndefinedStruct(s),
        ErrorKind::NotAMember { field, owner } => ErrorKind::NotAMember { field, owner },
        ErrorKind::MissingFields(s) => ErrorKind::MissingFields(s),
        ErrorKind::TooManyFields(s) => ErrorKind::TooManyFields(s),
        ErrorKind::NotAStruct(s) => ErrorKind::NotAStruct(s),
        ErrorKind::NotInstantiable(s) => ErrorKind::NotInstantiable(s),
        ErrorKind::UndefinedVariable(s) => ErrorKind::UndefinedVariable(s),
        ErrorKind::NoSuchField { owner, field } => ErrorKind::NoSuchField { owner, field },
        ErrorKind::NoFieldOnType(a, s) => ErrorKind::NoFieldOnType(a@, s),
        ErrorKind::CannotIndex(a) => ErrorKind::CannotIndex(a@),
        ErrorKind::IndexNotInt(a) => ErrorKind::IndexNotInt(a@),
        ErrorKind::Mismatch(a, b) => ErrorKind::Mismatch(a@, b@),
    }
}

impl View for Diagnostic<Type> {
    type V = Diagnostic<VType>;

    open spec fn view(&self) -> Diagnostic<VType> {
        Diagnostic { kind: view_kind(self.kind), span: self.span }
    }
}

/// The list of one diagnostic.
pub open spec fn one(kind: ErrorKind<VType>, span: Span) -> Seq<Diagnostic<VType>> {
    seq![Diagnostic { kind, span }]
}

/// Collects the errors found while checking, in the order they were found.
#[derive(Debug)]
pub struct Reporter {
    pub diagnostics: Vec<Diagnostic<Type>>,
}

impl View for Reporter {
    type V = Seq<Diagnostic<VType>>;

    open spec fn view(&self) -> Seq<Diagnostic<VType>> {
        self.diagnostics@.map_values(|d: Diagnostic<Type>| d@)
    }
}

impl Reporter {
    pub fn new() -> (r: Reporter)
        ensures
            r@ == Seq::<Diagnostic<VType>>::empty(),
    {
        let r = Reporter { diagnostics: Vec::new() };
        assert(r@ =~= Seq::<Diagnostic<VType>>::empty());
        r
    }

    /// Records one error.
    pub fn error(&mut self, kind: ErrorKind<Type>, span: Span)
        ensures
            final(self)@ == old(self)@ + one(view_kind(kind), span),
    {
        self.diagnostics.push(Diagnostic { kind, span });
        assert(final(self)@ =~= old(self)@ + one(view_kind(kind), span));
    }

    pub fn has_errors(&self) -> (b: bool)
        ensures
            b == (self@.len() > 0),
    {
        self.diagnostics.len() > 0
    }
}

} // verus!

