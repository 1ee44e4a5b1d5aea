use vstd::prelude::*;
use crate::env::Env;
use crate::report::{one, view_kind, Diagnostic, ErrorKind, Reporter};
use crate::syntax::Span;
use crate::types::{clone_tyvars, view_fields, view_type, view_types, Field, Symbol, TyCon, Type, TypeVar, VTyCon, VType};

verus! {

/// The outcome of checking: `Err` means an error has been reported.
pub type InferResult<T> = Result<T, ()>;

/// The type checker.
pub struct Infer {}

impl Infer {
    pub fn new() -> Infer {
        Infer {}
    }
}

/// The type bound to `v` by the latest pair for it.
pub open spec fn lookup_tv(m: Seq<(TypeVar, VType)>, v: TypeVar) -> Option<VType>
    decreases m.len(),
{
    if m.len() == 0 {
        None
    } else if m.last().0 == v {
        Some(m.last().1)
    } else {
        lookup_tv(m.drop_last(), v)
    }
}

/// Pairs the type variables with the types, as far as both reach.
pub open spec fn zip_subst(vs: Seq<TypeVar>, ts: Seq<VType>) -> Seq<(TypeVar, VType)> {
    Seq::new(
        if vs.len() <= ts.len() { vs.len() } else { ts.len() },
        |i: int| (vs[i], ts[i]),
    )
}

/// A substitution of types for type variables; a later binding of a
/// variable hides an earlier one.
pub struct Subst {
    pairs: Vec<(TypeVar, Type)>,
}

impl View for Subst {
    type V = Seq<(TypeVar, VType)>;

    closed spec fn view(&self) -> Seq<(TypeVar, VType)> {
        self.pairs@.map_values(|p: (TypeVar, Type)| (p.0, p.1@))
    }
}

impl Subst {
    pub fn new() -> (r: Subst)
        ensures
            r@ == Seq::<(TypeVar, VType)>::empty(),
    {
        let r = Subst { pairs: Vec::new() };
        assert(r@ =~= Seq::<(TypeVar, VType)>::empty());
        r
    }

    pub fn insert(&mut self, v: TypeVar, t: Type)
        ensures
            final(self)@ == old(self)@.push((v, t@)),
    {
        self.pairs.push((v, t));
        assert(final(self)@ =~= old(self)@.push((v, t@)));
    }

    pub fn get(&self, v: TypeVar) -> (r: Option<&Type>)
        ensures
            match r {
                Some(t) => lookup_tv(self@, v) == Some(t@),
                None => lookup_tv(self@, v) is None,
            },
    {
        let ghost all = self@;
        let mut i = self.pairs.len();
        assert(all.subrange(0, i as int) =~= all);
        while i > 0
            invariant
                i <= self.pairs@.len(),
                all == self@,
                lookup_tv(all, v) == lookup_tv(all.subrange(0, i as int), v),
            decreases i,
        {
            assert(all.subrange(0, i as int).drop_last() =~= all.subrange(0, i - 1));
            if self.pairs[i - 1].0 == v {
                return Some(&self.pairs[i - 1].1);
            }
            i = i - 1;
        }
        None
    }

    /// The substitution that binds each variable to the type at the same
    /// position, as far as both lists reach.
    pub fn zip(vs: &Vec<TypeVar>, ts: &Vec<Type>) -> (r: Subst)
        ensures
            r@ == zip_subst(vs@, view_types(ts@)),
    {
        let mut r = Subst::new();
        let mut i: usize = 0;
        let n = if vs.len() <= ts.len() { vs.len() } else { ts.len() };
        while i < n
            invariant
                n <= vs.len(),
                n <= ts.len(),
                n == zip_subst(vs@, view_types(ts@)).len(),
                i <= n,
                r@ == zip_subst(vs@, view_types(ts@)).subrange(0, i as int),
            decreases n - i,
        {
            r.insert(vs[i], ts[i].deep_clone());
            i = i + 1;
            assert(r@ =~= zip_subst(vs@, view_types(ts@)).subrange(0, i as int));
        }
        assert(r@ =~= zip_subst(vs@, view_types(ts@)));
        r
    }
}

/// Replaces each type variable bound in `m` by its type.
pub open spec fn subst_type(t: VType, m: Seq<(TypeVar, VType)>) -> VType
    decreases t, 0nat,
{
    match t {
        VType::App(c, ts) => VType::App(
            subst_tycon(c, m),
            Seq::new(ts.len(), |i: int| if 0 <= i < ts.len() { subst_type(ts[i], m) } else { VType::Nil }),
        ),
        VType::Struct(n, fs, u) => VType::Struct(
            n,
            Seq::new(
                fs.len(),
                |i: int| if 0 <= i < fs.len() { (fs[i].0, subst_type(fs[i].1, m)) } else { (fs[0].0, VType::Nil) },
            ),
            u,
        ),
        VType::Var(v) => match lookup_tv(m, v) {
            Some(x) => x,
            None => VType::Var(v),
        },
        VType::Poly(vs, b) => VType::Poly(vs, Box::new(subst_type(*b, m))),
        VType::Nil => VType::Nil,
    }
}

pub open spec fn subst_tycon(c: VTyCon, m: Seq<(TypeVar, VType)>) -> VTyCon
    decreases c, 0nat,
{
    match c {
        VTyCon::Fun(vs, b) => VTyCon::Fun(vs, Box::new(subst_type(*b, m))),
        _ => c,
    }
}

pub open spec fn subst_fields(fs: Seq<(Symbol, VType)>, m: Seq<(TypeVar, VType)>) -> Seq<(Symbol, VType)> {
    Seq::new(fs.len(), |i: int| (fs[i].0, subst_type(fs[i].1, m)))
}

pub open spec fn subst_types(ts: Seq<VType>, m: Seq<(TypeVar, VType)>) -> Seq<VType> {
    Seq::new(ts.len(), |i: int| subst_type(ts[i], m))
}

/// Whether two type constructors are the same one; the bodies of two
/// alias constructors are compared separately.
pub open spec fn same_head(a: VTyCon, b: VTyCon) -> bool {
    match (a, b) {
        (VTyCon::Bool, VTyCon::Bool) => true,
        (VTyCon::String, VTyCon::String) => true,
        (VTyCon::Void, VTyCon::Void) => true,
        (VTyCon::Int(s1, z1), VTyCon::Int(s2, z2)) => s1 == s2 && z1 == z2,
        (VTyCon::Arrow, VTyCon::Arrow) => true,
        (VTyCon::Fun(v1, _), VTyCon::Fun(v2, _)) => v1 == v2,
        _ => false,
    }
}

/// The first pair of corresponding parts at which two types disagree, if
/// there is one.  Struct types agree when they come from one declaration
/// and their fields agree as far as both lists reach; applications agree
/// when their constructors and all their arguments agree.
pub open spec fn mismatch(a: VType, b: VType) -> Option<(VType, VType)>
    decreases a, 0nat,
{
    match (a, b) {
        (VType::App(c1, ts1), VType::App(c2, ts2)) => {
            if !same_head(c1, c2) || ts1.len() != ts2.len() {
                Some((a, b))
            } else {
                match (c1, c2) {
                    (VTyCon::Fun(_, b1), VTyCon::Fun(_, b2)) => match mismatch(*b1, *b2) {
                        Some(p) => Some(p),
                        None => mismatch_list(ts1, ts2, 0),
                    },
                    _ => mismatch_list(ts1, ts2, 0),
                }
            }
        },
        (VType::Struct(_, f1, u1), VType::Struct(_, f2, u2)) => {
            if u1 != u2 {
                Some((a, b))
            } else {
                mismatch_fields(f1, f2, 0)
            }
        },
        (VType::Var(v1), VType::Var(v2)) => if v1 == v2 { None } else { Some((a, b)) },
        (VType::Poly(v1, b1), VType::Poly(v2, b2)) => {
            if v1 != v2 {
                Some((a, b))
            } else {
                mismatch(*b1, *b2)
            }
        },
        (VType::Nil, VType::Nil) => None,
        _ => Some((a, b)),
    }
}

pub open spec fn mismatch_list(xs: Seq<VType>, ys: Seq<VType>, i: int) -> Option<(VType, VType)>
    decreases xs, xs.len() - i,
{
    if i < 0 || i >= xs.len() || i >= ys.len() {
        None
    } else {
        match mismatch(xs[i], ys[i]) {
            Some(p) => Some(p),
            None => mismatch_list(xs, ys, i + 1),
        }
    }
}

pub open spec fn mismatch_fields(xs: Seq<(Symbol, VType)>, ys: Seq<(Symbol, VType)>, i: int) -> Option<(VType, VType)>
    decreases xs, xs.len() - i,
{
    if i < 0 || i >= xs.len() || i >= ys.len() {
        None
    } else {
        match mismatch(xs[i].1, ys[i].1) {
            Some(p) => Some(p),
            None => mismatch_fields(xs, ys, i + 1),
        }
    }
}

/// What unifying `a` with `b` reports: nothing when they agree, else one
/// mismatch at `span`.
pub open spec fn unify_diags(a: VType, b: VType, span: Span) -> Seq<Diagnostic<VType>> {
    match mismatch(a, b) {
        Some(p) => one(ErrorKind::Mismatch(p.0, p.1), span),
        None => Seq::empty(),
    }
}

pub open spec fn pair_view(p: Option<(Type, Type)>) -> Option<(VType, VType)> {
    match p {
        Some(q) => Some((q.0@, q.1@)),
        None => None,
    }
}

fn same_tyvars(a: &Vec<TypeVar>, b: &Vec<TypeVar>) -> (r: bool)
    ensures
        r == (a@ == b@),
{
    if a.len() != b.len() {
        return false;
    }
    let mut i: usize = 0;
    while i < a.len()
        invariant
            a@.len() == b@.len(),
            i <= a@.len(),
            forall|j: int| 0 <= j < i ==> a@[j] == b@[j],
        decreases a.len() - i,
    {
        if a[i] != b[i] {
            return false;
        }
        i = i + 1;
    }
    assert(a@ =~= b@);
    true
}

fn same_head_exec(a: &TyCon, b: &TyCon) -> (r: bool)
    ensures
        r == same_head(a@, b@),
{
    match (a, b) {
        (TyCon::Bool, TyCon::Bool) => true,
        (TyCon::String, TyCon::String) => true,
        (TyCon::Void, TyCon::Void) => true,
        (TyCon::Int(s1, z1), TyCon::Int(s2, z2)) => *s1 == *s2 && *z1 == *z2,
        (TyCon::Arrow, TyCon::Arrow) => true,
        (TyCon::Fun(v1, _), TyCon::Fun(v2, _)) => same_tyvars(v1, v2),
        _ => false,
    }
}

fn find_mismatch(a: &Type, b: &Type) -> (r: Option<(Type, Type)>)
    ensures
        pair_view(r) == mismatch(a@, b@),
    decreases a, 0nat,
{
    match (a, b) {
        (Type::App(c1, ts1), Type::App(c2, ts2)) => {
            assert(a@ == VType::App(c1@, view_types(ts1@)));
            assert(b@ == VType::App(c2@, view_types(ts2@)));
            if !same_head_exec(c1, c2) || ts1.len() != ts2.len() {
                return Some((a.deep_clone(), b.deep_clone()));
            }
            match (c1, c2) {
                (TyCon::Fun(_, b1), TyCon::Fun(_, b2)) => {
                    let r = find_mismatch(b1, b2);
                    if r.is_some() {
                        return r;
                    }
                },
                _ => {},
            }
            find_mismatch_list(ts1, ts2)
        },
        (Type::Struct(_, f1, u1), Type::Struct(_, f2, u2)) => {
            if *u1 != *u2 {
                return Some((a.deep_clone(), b.deep_clone()));
            }
            find_mismatch_fields(f1, f2)
        },
        (Type::Var(v1), Type::Var(v2)) => {
            if *v1 == *v2 {
                None
            } else {
                Some((a.deep_clone(), b.deep_clone()))
            }
        },
        (Type::Poly(v1, b1), Type::Poly(v2, b2)) => {
            if !same_tyvars(v1, v2) {
                return Some((a.deep_clone(), b.deep_clone()));
            }
            find_mismatch(b1, b2)
        },
        (Type::Nil, Type::Nil) => None,
        _ => Some((a.deep_clone(), b.deep_clone())),
    }
}

fn find_mismatch_list(xs: &Vec<Type>, ys: &Vec<Type>) -> (r: Option<(Type, Type)>)
    ensures
        pair_view(r) == mismatch_list(view_types(xs@), view_types(ys@), 0),
    decreases xs, 0nat,
{
    let ghost vx = view_types(xs@);
    let ghost vy = view_types(ys@);
    let mut i: usize = 0;
    while i < xs.len() && i < ys.len()
        invariant
            vx == view_types(xs@),
            vy == view_types(ys@),
            i <= xs.len(),
            mismatch_list(vx, vy, 0) == mismatch_list(vx, vy, i as int),
        decreases xs.len() - i,
    {
        assert(decreases_to!(xs => xs@[i as int]));
        let r = find_mismatch(&xs[i], &ys[i]);
        if r.is_some() {
            return r;
        }
        i = i + 1;
    }
    None
}

fn find_mismatch_fields(xs: &Vec<Field>, ys: &Vec<Field>) -> (r: Option<(Type, Type)>)
    ensures
        pair_view(r) == mismatch_fields(view_fields(xs@), view_fields(ys@), 0),
    decreases xs, 0nat,
{
    let ghost vx = view_fields(xs@);
    let ghost vy = view_fields(ys@);
    let mut i: usize = 0;
    while i < xs.len() && i < ys.len()
        invariant
            vx == view_fields(xs@),
            vy == view_fields(ys@),
            i <= xs.len(),
            mismatch_fields(vx, vy, 0) == mismatch_fields(vx, vy, i as int),
        decreases xs.len() - i,
    {
        assert(decreases_to!(xs => xs@[i as int].ty));
        let r = find_mismatch(&xs[i].ty, &ys[i].ty);
        if r.is_some() {
            return r;
        }
        i = i + 1;
    }
    None
}

impl Infer {
    /// Requires `lhs` and `rhs` to agree, reporting at `span` where they do not.
    pub fn unify(&self, lhs: &Type, rhs: &Type, reporter: &mut Reporter, span: Span, env: &mut Env) -> (r: InferResult<()>)
        ensures
            *final(env) == *old(env),
            r is Ok <==> mismatch(lhs@, rhs@) is None,
            final(reporter)@ == old(reporter)@ + unify_diags(lhs@, rhs@, span),
    {
        match find_mismatch(lhs, rhs) {
            None => {
                assert(old(reporter)@ + unify_diags(lhs@, rhs@, span) =~= old(reporter)@);
                Ok(())
            },
            Some((a, b)) => {
                reporter.error(ErrorKind::Mismatch(a, b), span);
                Err(())
            },
        }
    }

    /// `ty` with each type variable bound in `mappings` replaced by its type.
    pub fn subst(&self, ty: &Type, mappings: &Subst) -> (r: Type)
        ensures
            r@ == subst_type(ty@, mappings@),
        decreases ty, 0nat,
    {
        match ty {
            Type::App(c, ts) => {
                assert(ty@ == VType::App(c@, view_types(ts@)));
                let c2 = match c {
                    TyCon::Fun(vs, b) => TyCon::Fun(clone_tyvars(vs), Box::new(self.subst(b, mappings))),
                    _ => c.deep_clone(),
                };
                assert(c2@ == subst_tycon(c@, mappings@));
                let ts2 = self.subst_list(ts, mappings);
                let r = Type::App(c2, ts2);
                assert(r@->App_1 =~= subst_type(ty@, mappings@)->App_1);
                r
            },
            Type::Struct(n, fs, u) => {
                let fs2 = self.subst_field_list(fs, mappings);
                let r = Type::Struct(*n, fs2, *u);
                assert(r@->Struct_1 =~= subst_type(ty@, mappings@)->Struct_1);
                r
            },
            Type::Var(v) => match mappings.get(*v) {
                Some(t) => t.deep_clone(),
                None => Type::Var(*v),
            },
            Type::Poly(vs, b) => Type::Poly(clone_tyvars(vs), Box::new(self.subst(b, mappings))),
            Type::Nil => Type::Nil,
        }
    }

    pub(crate) fn subst_list(&self, ts: &Vec<Type>, mappings: &Subst) -> (r: Vec<Type>)
        ensures
            view_types(r@) == subst_types(view_types(ts@), mappings@),
        decreases ts, 0nat,
    {
        let mut r: Vec<Type> = Vec::new();
        let mut i: usize = 0;
        while i < ts.len()
            invariant
                i <= ts.len(),
                r@.len() == i,
                forall|j: int| 0 <= j < i ==> view_type(#[trigger] r@[j]) == subst_type(view_type(ts@[j]), mappings@),
            decreases ts.len() - i,
        {
            assert(decreases_to!(ts => ts@[i as int]));
            let t = self.subst(&ts[i], mappings);
            r.push(t);
            i = i + 1;
        }
        assert(view_types(r@) =~= subst_types(view_types(ts@), mappings@));
        r
    }

    pub(crate) fn subst_field_list(&self, fs: &Vec<Field>, mappings: &Subst) -> (r: Vec<Field>)
        ensures
            view_fields(r@) == subst_fields(view_fields(fs@), mappings@),
        decreases fs, 0nat,
    {
        let mut r: Vec<Field> = Vec::new();
        let mut i: usize = 0;
        while i < fs.len()
            invariant
                i <= fs.len(),
                r@.len() == i,
                forall|j: int| 0 <= j < i ==> (#[trigger] r@[j]).name == fs@[j].name
                    && view_type(r@[j].ty) == subst_type(view_type(fs@[j].ty), mappings@),
            decreases fs.len() - i,
        {
            assert(decreases_to!(fs => fs@[i as int].ty));
            let t = self.subst(&fs[i].ty, mappings);
            r.push(Field { name: fs[i].name, ty: t });
            i = i + 1;
        }
        assert(view_fields(r@) =~= subst_fields(view_fields(fs@), mappings@));
        r
    }
}

} // verus!
