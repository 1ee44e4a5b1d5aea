use vstd::prelude::*;

verus! {

/// An interned identifier.
#[derive(PartialEq, Eq, Structural, Clone, Copy, Debug)]
pub struct Symbol(pub u32);

/// A type variable, introduced for each type parameter.
#[derive(PartialEq, Eq, Structural, Clone, Copy, Debug)]
pub struct TypeVar(pub u32);

/// The identity of one struct declaration.
#[derive(PartialEq, Eq, Structural, Clone, Copy, Debug)]
pub struct Unique(pub u32);

#[derive(PartialEq, Eq, Structural, Clone, Copy, Debug)]
pub enum Sign {
    Signed,
    Unsigned,
}

#[derive(PartialEq, Eq, Structural, Clone, Copy, Debug)]
pub enum Size {
    Bit8,
    Bit32,
    Bit64,
}

#[derive(PartialEq, Eq, Debug)]
pub enum TyCon {
    Bool,
    String,
    Void,
    Int(Sign, Size),
    Arrow,
    Fun(Vec<TypeVar>, Box<Type>),
}

#[derive(PartialEq, Eq, Debug)]
pub struct Field {
    pub name: Symbol,
    pub ty: Type,
}

#[derive(PartialEq, Eq, Debug)]
pub enum Type {
    App(TyCon, Vec<Type>),
    Struct(Symbol, Vec<Field>, Unique),
    Var(TypeVar),
    Poly(Vec<TypeVar>, Box<Type>),
    Nil,
}

pub enum VTyCon {
    Bool,
    String,
    Void,
    Int(Sign, Size),
    Arrow,
    Fun(Seq<TypeVar>, Box<VType>),
}

pub enum VType {
    App(VTyCon, Seq<VType>),
    Struct(Symbol, Seq<(Symbol, VType)>, Unique),
    Var(TypeVar),
    Poly(Seq<TypeVar>, Box<VType>),
    Nil,
}

pub open spec fn view_type(t: Type) -> VType
    decreases t, 0nat,
{
    match t {
        Type::App(c, ts) => VType::App(view_tycon(c), view_types(ts@)),
        Type::Struct(n, fs, u) => VType::Struct(n, view_fields(fs@), u),
        Type::Var(v) => VType::Var(v),
        Type::Poly(vs, b) => VType::Poly(vs@, Box::new(view_type(*b))),
        Type::Nil => VType::Nil,
    }
}

pub open spec fn view_tycon(c: TyCon) -> VTyCon
    decreases c, 0nat,
{
    match c {
        TyCon::Bool => VTyCon::Bool,
        TyCon::String => VTyCon::String,
        TyCon::Void => VTyCon::Void,
        TyCon::Int(s, z) => VTyCon::Int(s, z),
        TyCon::Arrow => VTyCon::Arrow,
        TyCon::Fun(vs, b) => VTyCon::Fun(vs@, Box::new(view_type(*b))),
    }
}

pub open spec fn view_types(s: Seq<Type>) -> Seq<VType>
    decreases s, 0nat,
{
    Seq::new(s.len(), |i: int| if 0 <= i < s.len() { view_type(s[i]) } else { VType::Nil })
}

pub open spec fn view_fields(s: Seq<Field>) -> Seq<(Symbol, VType)>
    decreases s, 0nat,
{
    Seq::new(s.len(), |i: int| if 0 <= i < s.len() { (s[i].name, view_type(s[i].ty)) } else { (Symbol(0), VType::Nil) })
}

impl View for Type {
    type V = VType;

    open spec fn view(&self) -> VType {
        view_type(*self)
    }
}

impl View for TyCon {
    type V = VTyCon;

    open spec fn view(&self) -> VTyCon {
        view_tycon(*self)
    }
}

/// True of the integer types, whatever their sign and width.
pub open spec fn is_int_type(t: VType) -> bool {
    t matches VType::App(VTyCon::Int(_, _), _)
}

/// A copy of a list of type variables.
pub fn clone_tyvars(vs: &Vec<TypeVar>) -> (r: Vec<TypeVar>)
    ensures
        r@ == vs@,
{
    let mut r: Vec<TypeVar> = Vec::new();
    let mut i: usize = 0;
    while i < vs.len()
        invariant
            i <= vs.len(),
            r@ == vs@.subrange(0, i as int),
        decreases vs.len() - i,
    {
        r.push(vs[i]);
        i = i + 1;
        assert(r@ =~= vs@.subrange(0, i as int));
    }
    assert(r@ =~= vs@);
    r
}

impl TyCon {
    pub fn deep_clone(&self) -> (r: TyCon)
        ensures
            r@ == self@,
        decreases self, 0nat,
    {
        match self {
            TyCon::Bool => TyCon::Bool,
            TyCon::String => TyCon::String,
            TyCon::Void => TyCon::Void,
            TyCon::Int(s, z) => TyCon::Int(*s, *z),
            TyCon::Arrow => TyCon::Arrow,
            TyCon::Fun(vs, b) => TyCon::Fun(clone_tyvars(vs), Box::new((**b).deep_clone())),
        }
    }
}

impl Type {
    /// A copy of the type, equal to it in every part.
    pub fn deep_clone(&self) -> (r: Type)
        ensures
            r@ == self@,
        decreases self, 0nat,
    {
        match self {
            Type::App(c, ts) => Type::App(c.deep_clone(), clone_types(ts)),
            Type::Struct(n, fs, u) => Type::Struct(*n, clone_fields(fs), *u),
            Type::Var(v) => Type::Var(*v),
            Type::Poly(vs, b) => Type::Poly(clone_tyvars(vs), Box::new((**b).deep_clone())),
            Type::Nil => Type::Nil,
        }
    }

    /// Whether this is one of the integer types.
    pub fn is_int(&self) -> (b: bool)
        ensures
            b == is_int_type(self@),
    {
        match self {
            Type::App(c, ts) => {
                assert(self@ == VType::App(c@, view_types(ts@)));
                match c {
                    TyCon::Int(_, _) => true,
                    _ => false,
                }
            }
            _ => false,
        }
    }
}

pub fn clone_types(ts: &Vec<Type>) -> (r: Vec<Type>)
    ensures
        view_types(r@) == view_types(ts@),
    decreases ts, 0nat,
{
    let mut r: Vec<Type> = Vec::new();
    let mut i: usize = 0;
    while i < ts.len()
        invariant
            i <= ts.len(),
            r@.len() == i,
            forall|j: int| 0 <= j < i ==> view_type(#[trigger] r@[j]) == view_type(ts@[j]),
        decreases ts.len() - i,
    {
        assert(decreases_to!(ts => ts@[i as int]));
        r.push(ts[i].deep_clone());
        i = i + 1;
    }
    assert(view_types(r@) =~= view_types(ts@));
    r
}

pub fn clone_fields(fs: &Vec<Field>) -> (r: Vec<Field>)
    ensures
        view_fields(r@) == view_fields(fs@),
    decreases fs, 0nat,
{
    let mut r: Vec<Field> = Vec::new();
    let mut i: usize = 0;
    while i < fs.len()
        invariant
            i <= fs.len(),
            r@.len() == i,
            forall|j: int| 0 <= j < i ==> (#[trigger] r@[j]).name == fs@[j].name
                && view_type(r@[j].ty) == view_type(fs@[j].ty),
        decreases fs.len() - i,
    {
        assert(decreases_to!(fs => fs@[i as int].ty));
        r.push(Field { name: fs[i].name, ty: fs[i].ty.deep_clone() });
        i = i + 1;
    }
    assert(view_fields(r@) =~= view_fields(fs@));
    r
}

/// The view of a type constructor, one constructor deep.
pub proof fn lemma_view_tycon(c: TyCon)
    ensures
        view_tycon(c) == match c {
            TyCon::Bool => VTyCon::Bool,
            TyCon::String => VTyCon::String,
            TyCon::Void => VTyCon::Void,
            TyCon::Int(s, z) => VTyCon::Int(s, z),
            TyCon::Arrow => VTyCon::Arrow,
            TyCon::Fun(vs, b) => VTyCon::Fun(vs@, Box::new(view_type(*b))),
        },
{
}

/// Only an arrow application views as one.
pub proof fn lemma_view_arrow(t: Type)
    ensures
        (view_type(t) matches VType::App(VTyCon::Arrow, _)) <==> (t matches Type::App(TyCon::Arrow, _)),
{
    match t {
        Type::App(c, _) => lemma_view_tycon(c),
        _ => {},
    }
}

/// Only a `String` application views as one.
pub proof fn lemma_view_string(t: Type)
    ensures
        (view_type(t) matches VType::App(VTyCon::String, _)) <==> (t matches Type::App(TyCon::String, _)),
{
    match t {
        Type::App(c, _) => lemma_view_tycon(c),
        _ => {},
    }
}

} // verus!
