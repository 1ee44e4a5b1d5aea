use vstd::prelude::*;
use crate::types::{Symbol, TyCon, Type, TypeVar, Unique, VTyCon, VType};

verus! {

/// What a name in the type namespace stands for.
#[derive(PartialEq, Eq, Debug)]
pub enum Entry {
    /// A type, possibly polymorphic.
    Ty(Type),
    /// A type constructor: a type alias with type parameters.
    TyCon(TyCon),
}

pub enum VEntry {
    Ty(VType),
    TyCon(VTyCon),
}

impl View for Entry {
    type V = VEntry;

    open spec fn view(&self) -> VEntry {
        match self {
            Entry::Ty(t) => VEntry::Ty(t@),
            Entry::TyCon(c) => VEntry::TyCon(c@),
        }
    }
}

impl Entry {
    pub fn deep_clone(&self) -> (r: Entry)
        ensures
            r@ == self@,
    {
        match self {
            Entry::Ty(t) => Entry::Ty(t.deep_clone()),
            Entry::TyCon(c) => Entry::TyCon(c.deep_clone()),
        }
    }
}

/// The abstract contents of a scoped table: the bindings in the order they
/// were made, and for each open scope the number of bindings made before it.
#[verifier::ext_equal]
pub struct TableV<V> {
    pub bindings: Seq<(Symbol, V)>,
    pub marks: Seq<nat>,
}

/// The value most recently bound to `s` that is still in the table.
pub open spec fn lookup<V>(bindings: Seq<(Symbol, V)>, s: Symbol) -> Option<V>
    decreases bindings.len(),
{
    if bindings.len() == 0 {
        None
    } else if bindings.last().0 == s {
        Some(bindings.last().1)
    } else {
        lookup(bindings.drop_last(), s)
    }
}

pub open spec fn table_add<V>(t: TableV<V>, s: Symbol, v: V) -> TableV<V> {
    TableV { bindings: t.bindings.push((s, v)), marks: t.marks }
}

pub open spec fn table_begin<V>(t: TableV<V>) -> TableV<V> {
    TableV { bindings: t.bindings, marks: t.marks.push(t.bindings.len()) }
}

/// Closing a scope drops the bindings made since it was opened; with no
/// scope open it changes nothing.
pub open spec fn table_end<V>(t: TableV<V>) -> TableV<V> {
    if t.marks.len() == 0 {
        t
    } else {
        let m = t.marks.last() as int;
        TableV {
            bindings: if m <= t.bindings.len() { t.bindings.subrange(0, m) } else { t.bindings },
            marks: t.marks.drop_last(),
        }
    }
}

/// A table of bindings from names to values, organised in nested scopes.
#[derive(Debug)]
pub struct ScopedTable<T> {
    bindings: Vec<(Symbol, T)>,
    marks: Vec<usize>,
}

impl<T: View> View for ScopedTable<T> {
    type V = TableV<T::V>;

    closed spec fn view(&self) -> TableV<T::V> {
        TableV {
            bindings: self.bindings@.map_values(|p: (Symbol, T)| (p.0, p.1@)),
            marks: self.marks@.map_values(|m: usize| m as nat),
        }
    }
}

impl<T: View> ScopedTable<T> {
    pub fn new() -> (r: Self)
        ensures
            r@.bindings == Seq::<(Symbol, T::V)>::empty(),
            r@.marks == Seq::<nat>::empty(),
    {
        let r = ScopedTable { bindings: Vec::new(), marks: Vec::new() };
        assert(r@.bindings =~= Seq::<(Symbol, T::V)>::empty());
        assert(r@.marks =~= Seq::<nat>::empty());
        r
    }

    pub fn look(&self, s: Symbol) -> (r: Option<&T>)
        ensures
            match r {
                Some(v) => lookup(self@.bindings, s) == Some(v@),
                None => lookup(self@.bindings, s) is None,
            },
    {
        let ghost all = self@.bindings;
        let mut i = self.bindings.len();
        assert(all.subrange(0, i as int) =~= all);
        while i > 0
            invariant
                i <= self.bindings@.len(),
                all == self@.bindings,
                lookup(all, s) == lookup(all.subrange(0, i as int), s),
            decreases i,
        {
            let ghost pre = all.subrange(0, i as int);
            assert(pre.drop_last() =~= all.subrange(0, i - 1));
            if self.bindings[i - 1].0 == s {
                return Some(&self.bindings[i - 1].1);
            }
            i = i - 1;
        }
        None
    }

    pub fn add(&mut self, s: Symbol, v: T)
        ensures
            final(self)@ == table_add(old(self)@, s, v@),
    {
        self.bindings.push((s, v));
        assert(final(self)@.bindings =~= old(self)@.bindings.push((s, v@)));
    }

    pub fn begin_scope(&mut self)
        ensures
            final(self)@ == table_begin(old(self)@),
    {
        let n = self.bindings.len();
        self.marks.push(n);
        assert(final(self)@.marks =~= old(self)@.marks.push(old(self)@.bindings.len()));
    }

    pub fn end_scope(&mut self)
        ensures
            final(self)@ == table_end(old(self)@),
    {
        match self.marks.pop() {
            Some(m) => {
                if m <= self.bindings.len() {
                    self.bindings.truncate(m);
                }
                assert(final(self)@.bindings =~= table_end(old(self)@).bindings);
                assert(final(self)@.marks =~= table_end(old(self)@).marks);
            },
            None => {},
        }
    }
}

/// The abstract state of an environment.
#[verifier::ext_equal]
pub struct EnvV {
    pub types: TableV<VEntry>,
    pub vars: TableV<VType>,
    pub next_tyvar: u32,
    pub next_unique: u32,
}

pub open spec fn look_type(e: EnvV, s: Symbol) -> Option<VEntry> {
    lookup(e.types.bindings, s)
}

pub open spec fn look_var(e: EnvV, s: Symbol) -> Option<VType> {
    lookup(e.vars.bindings, s)
}

pub open spec fn add_type(e: EnvV, s: Symbol, v: VEntry) -> EnvV {
    EnvV { types: table_add(e.types, s, v), ..e }
}

pub open spec fn add_var(e: EnvV, s: Symbol, v: VType) -> EnvV {
    EnvV { vars: table_add(e.vars, s, v), ..e }
}

pub open spec fn begin_scope(e: EnvV) -> EnvV {
    EnvV { types: table_begin(e.types), vars: table_begin(e.vars), ..e }
}

pub open spec fn end_scope(e: EnvV) -> EnvV {
    EnvV { types: table_end(e.types), vars: table_end(e.vars), ..e }
}

/// The two namespaces of a program, types and values, with the supply of
/// type variables and struct identities that this environment hands out.
#[derive(Debug)]
pub struct Env {
    types: ScopedTable<Entry>,
    vars: ScopedTable<Type>,
    next_tyvar: u32,
    next_unique: u32,
}

impl View for Env {
    type V = EnvV;

    closed spec fn view(&self) -> EnvV {
        EnvV { types: self.types@, vars: self.vars@, next_tyvar: self.next_tyvar, next_unique: self.next_unique }
    }
}

impl Env {
    /// An environment with no bindings and no open scope. Where its supply
    /// of type variables and struct identities starts is not part of the
    /// contract: only that what it hands out is new to this environment.
    pub fn new() -> (r: Env)
        ensures
            r@.types.bindings.len() == 0,
            r@.types.marks.len() == 0,
            r@.vars.bindings.len() == 0,
            r@.vars.marks.len() == 0,
    {
        Env { types: ScopedTable::new(), vars: ScopedTable::new(), next_tyvar: 0, next_unique: 0 }
    }

    pub fn look_type(&self, s: Symbol) -> (r: Option<&Entry>)
        ensures
            match r {
                Some(v) => look_type(self@, s) == Some(v@),
                None => look_type(self@, s) is None,
            },
    {
        self.types.look(s)
    }

    pub fn look_var(&self, s: Symbol) -> (r: Option<&Type>)
        ensures
            match r {
                Some(v) => look_var(self@, s) == Some(v@),
                None => look_var(self@, s) is None,
            },
    {
        self.vars.look(s)
    }

    pub fn add_type(&mut self, s: Symbol, v: Entry)
        ensures
            final(self)@ == add_type(old(self)@, s, v@),
    {
        self.types.add(s, v);
    }

    pub fn add_var(&mut self, s: Symbol, v: Type)
        ensures
            final(self)@ == add_var(old(self)@, s, v@),
    {
        self.vars.add(s, v);
    }

    /// Opens a scope in both namespaces.
    pub fn begin_scope(&mut self)
        ensures
            final(self)@ == begin_scope(old(self)@),
    {
        self.types.begin_scope();
        self.vars.begin_scope();
    }

    /// Closes the innermost scope in both namespaces.
    pub fn end_scope(&mut self)
        ensures
            final(self)@ == end_scope(old(self)@),
    {
        self.types.end_scope();
        self.vars.end_scope();
    }

    /// How many more type variables and struct identities this environment
    /// can hand out.
    pub fn fresh_names_left(&self) -> (r: (u32, u32))
        ensures
            r.0 == u32::MAX - self@.next_tyvar,
            r.1 == u32::MAX - self@.next_unique,
    {
        (u32::MAX - self.next_tyvar, u32::MAX - self.next_unique)
    }

    /// A type variable that this environment has not handed out before.
    pub fn fresh_tyvar(&mut self) -> (v: TypeVar)
        requires
            old(self)@.next_tyvar < u32::MAX,
        ensures
            v == TypeVar(old(self)@.next_tyvar),
            final(self)@ == (EnvV { next_tyvar: (old(self)@.next_tyvar + 1) as u32, ..old(self)@ }),
    {
        let v = TypeVar(self.next_tyvar);
        self.next_tyvar = self.next_tyvar + 1;
        v
    }

    /// A struct identity that this environment has not handed out before.
    pub fn fresh_unique(&mut self) -> (u: Unique)
        requires
            old(self)@.next_unique < u32::MAX,
        ensures
            u == Unique(old(self)@.next_unique),
            final(self)@ == (EnvV { next_unique: (old(self)@.next_unique + 1) as u32, ..old(self)@ }),
    {
        let u = Unique(self.next_unique);
        self.next_unique = self.next_unique + 1;
        u
    }
}

} // verus!
