use vstd::prelude::*;

use indexmap::IndexMap;

use crate::ids::{DefId, LocalId, MirFuncId, TypeId};
use crate::mir::statement::Statement;
use crate::mir::terminator::Terminator;
use crate::span::Span;
use crate::types::Mutability;

verus! {

/// An insertion-ordered map of the `indexmap` crate.
#[verifier::external_type_specification]
#[verifier::external_body]
#[verifier::reject_recursive_types(K)]
#[verifier::reject_recursive_types(V)]
#[verifier::reject_recursive_types(S)]
pub struct ExIndexMap<K, V, S>(IndexMap<K, V, S>);

#[derive(Clone, Debug)]
pub struct LocalDecl {
    pub ty: TypeId,
    pub mutability: Mutability,
    pub span: Span,
}

#[derive(Clone, Debug)]
pub struct BasicBlock {
    pub statements: Vec<Statement>,
    pub terminator: Terminator,
}

#[derive(Clone, Debug)]
pub struct SourceScope {
    pub span: Span,
}

#[derive(Clone, Debug)]
pub struct MirBody {
    pub name: String,
    pub def_id: DefId,
    pub arg_count: usize,
    pub return_ty: TypeId,
    pub locals: Vec<LocalDecl>,
    pub blocks: Vec<BasicBlock>,
    pub source_scopes: Vec<SourceScope>,
}

/// The MIR of a crate: its function bodies in order of creation, and the
/// body of each definition.
#[derive(Debug)]
pub struct MirCrate {
    pub functions: IndexMap<MirFuncId, MirBody>,
    pub def_to_func: IndexMap<DefId, MirFuncId>,
}

/// The entries of a function table, in their order.
pub uninterp spec fn func_entries(m: IndexMap<MirFuncId, MirBody>) -> Seq<(MirFuncId, MirBody)>;

/// The entries of a definition table, in their order.
pub uninterp spec fn def_entries(m: IndexMap<DefId, MirFuncId>) -> Seq<(DefId, MirFuncId)>;

/// The value of the first entry with key `k`.
pub open spec fn func_lookup(s: Seq<(MirFuncId, MirBody)>, k: MirFuncId) -> Option<MirBody>
    decreases s.len(),
{
    if s.len() == 0 {
        None
    } else if s[0].0 == k {
        Some(s[0].1)
    } else {
        func_lookup(s.drop_first(), k)
    }
}

/// The value of the first entry with key `k`.
pub open spec fn def_lookup(s: Seq<(DefId, MirFuncId)>, k: DefId) -> Option<MirFuncId>
    decreases s.len(),
{
    if s.len() == 0 {
        None
    } else if s[0].0 == k {
        Some(s[0].1)
    } else {
        def_lookup(s.drop_first(), k)
    }
}

/// `IndexMap::new`: an empty map.
#[verifier::external_body]
fn func_table_new() -> (m: IndexMap<MirFuncId, MirBody>)
    ensures
        func_entries(m) == Seq::<(MirFuncId, MirBody)>::empty(),
{
    IndexMap::new()
}

/// `IndexMap::new`: an empty map.
#[verifier::external_body]
fn def_table_new() -> (m: IndexMap<DefId, MirFuncId>)
    ensures
        def_entries(m) == Seq::<(DefId, MirFuncId)>::empty(),
{
    IndexMap::new()
}

/// `IndexMap::insert`: an existing key keeps its place and gets the new
/// value; a new key is appended.
#[verifier::external_body]
fn func_table_insert(m: &mut IndexMap<MirFuncId, MirBody>, k: MirFuncId, v: MirBody)
    ensures
        (exists|i: int| 0 <= i < func_entries(*old(m)).len() && func_entries(*old(m))[i].0 == k) ==> (exists|i: int|
            0 <= i < func_entries(*old(m)).len() && func_entries(*old(m))[i].0 == k
                && func_entries(*final(m)) == func_entries(*old(m)).update(i, (k, v))),
        (forall|i: int| 0 <= i < func_entries(*old(m)).len() ==> func_entries(*old(m))[i].0 != k) ==> func_entries(*final(m))
            == func_entries(*old(m)).push((k, v)),
{
    m.insert(k, v);
}

/// `IndexMap::insert`: an existing key keeps its place and gets the new
/// value; a new key is appended.
#[verifier::external_body]
fn def_table_insert(m: &mut IndexMap<DefId, MirFuncId>, k: DefId, v: MirFuncId)
    ensures
        (exists|i: int| 0 <= i < def_entries(*old(m)).len() && def_entries(*old(m))[i].0 == k) ==> (exists|i: int|
            0 <= i < def_entries(*old(m)).len() && def_entries(*old(m))[i].0 == k
                && def_entries(*final(m)) == def_entries(*old(m)).update(i, (k, v))),
        (forall|i: int| 0 <= i < def_entries(*old(m)).len() ==> def_entries(*old(m))[i].0 != k) ==> def_entries(*final(m))
            == def_entries(*old(m)).push((k, v)),
{
    m.insert(k, v);
}

/// `IndexMap::get`: the value of the entry with key `k`.
#[verifier::external_body]
pub(crate) fn func_table_get<'a>(m: &'a IndexMap<MirFuncId, MirBody>, k: MirFuncId) -> (r: Option<&'a MirBody>)
    ensures
        match r {
            Some(b) => func_lookup(func_entries(*m), k) == Some(*b),
            None => func_lookup(func_entries(*m), k) is None,
        },
{
    m.get(&k)
}

/// `IndexMap::get`: the value of the entry with key `k`.
#[verifier::external_body]
pub(crate) fn def_table_get(m: &IndexMap<DefId, MirFuncId>, k: DefId) -> (r: Option<MirFuncId>)
    ensures
        r == def_lookup(def_entries(*m), k),
{
    m.get(&k).copied()
}

/// `IndexMap::values().next()`: the value of the first entry.
#[verifier::external_body]
pub(crate) fn def_table_get_first(m: &IndexMap<DefId, MirFuncId>) -> (r: Option<MirFuncId>)
    ensures
        match r {
            Some(f) => def_entries(*m).len() > 0 && f == def_entries(*m)[0].1,
            None => def_entries(*m).len() == 0,
        },
{
    m.values().next().copied()
}

/// `IndexMap::len`: the number of entries.
#[verifier::external_body]
fn func_table_len(m: &IndexMap<MirFuncId, MirBody>) -> (n: usize)
    ensures
        n == func_entries(*m).len(),
{
    m.len()
}

/// `IndexMap::len`: the number of entries.
#[verifier::external_body]
pub(crate) fn def_table_len(m: &IndexMap<DefId, MirFuncId>) -> (n: usize)
    ensures
        n == def_entries(*m).len(),
{
    m.len()
}

/// `IndexMap::get_index`: the value of the entry at position `i`.
#[verifier::external_body]
fn func_table_value_at(m: &IndexMap<MirFuncId, MirBody>, i: usize) -> (r: Option<&MirBody>)
    ensures
        match r {
            Some(b) => i < func_entries(*m).len() && *b == func_entries(*m)[i as int].1,
            None => i >= func_entries(*m).len(),
        },
{
    m.get_index(i).map(|(_, v)| v)
}

/// `IndexMap::get_index`: the entry at position `i`.
#[verifier::external_body]
pub(crate) fn def_table_get_index(m: &IndexMap<DefId, MirFuncId>, i: usize) -> (r: Option<(DefId, MirFuncId)>)
    ensures
        i < def_entries(*m).len() ==> r == Some(def_entries(*m)[i as int]),
        i >= def_entries(*m).len() ==> r is None,
{
    m.get_index(i).map(|(k, v)| (*k, *v))
}

impl MirBody {
    /// The local of argument `arg_index`: locals are numbered after the
    /// return place.
    pub fn arg_local(&self, arg_index: usize) -> (l: LocalId)
        requires
            arg_index < usize::MAX,
        ensures
            l.0 == (1 + arg_index) as u32,
    {
        LocalId::from_usize(1 + arg_index)
    }

    /// The type of `local`.
    pub fn local_ty(&self, local: LocalId) -> (t: TypeId)
        requires
            local.0 < self.locals@.len(),
        ensures
            t == self.locals@[local.0 as int].ty,
    {
        self.locals[local.index()].ty
    }
}

impl MirCrate {
    /// A crate without functions.
    pub fn new() -> (c: MirCrate)
        ensures
            func_entries(c.functions).len() == 0,
            def_entries(c.def_to_func).len() == 0,
    {
        MirCrate { functions: func_table_new(), def_to_func: def_table_new() }
    }

    /// The entries of the function table.
    pub open spec fn funcs(&self) -> Seq<(MirFuncId, MirBody)> {
        func_entries(self.functions)
    }

    /// The entries of the definition table.
    pub open spec fn defs(&self) -> Seq<(DefId, MirFuncId)> {
        def_entries(self.def_to_func)
    }

    /// The body of definition `def`, if it has one.
    pub open spec fn spec_get_by_def(&self, def: DefId) -> Option<MirBody> {
        match def_lookup(self.defs(), def) {
            Some(f) => func_lookup(self.funcs(), f),
            None => None,
        }
    }

    /// The body of definition `def`, if it has one.
    pub fn get_by_def(&self, def: DefId) -> (r: Option<&MirBody>)
        ensures
            match r {
                Some(b) => self.spec_get_by_def(def) == Some(*b),
                None => self.spec_get_by_def(def) is None,
            },
    {
        match def_table_get(&self.def_to_func, def) {
            Some(f) => func_table_get(&self.functions, f),
            None => None,
        }
    }

    /// Appends or replaces the body of `f`.
    pub fn insert_function(&mut self, f: MirFuncId, body: MirBody)
        ensures
            final(self).defs() == old(self).defs(),
            (forall|i: int| 0 <= i < old(self).funcs().len() ==> old(self).funcs()[i].0 != f) ==> final(self).funcs()
                == old(self).funcs().push((f, body)),
    {
        func_table_insert(&mut self.functions, f, body);
    }

    /// Maps `def` to `f`.
    pub fn insert_def(&mut self, def: DefId, f: MirFuncId)
        ensures
            final(self).funcs() == old(self).funcs(),
            (forall|i: int| 0 <= i < old(self).defs().len() ==> old(self).defs()[i].0 != def) ==> final(self).defs()
                == old(self).defs().push((def, f)),
    {
        def_table_insert(&mut self.def_to_func, def, f);
    }

    /// The number of function bodies.
    pub fn function_count(&self) -> (n: usize)
        ensures
            n == self.funcs().len(),
    {
        func_table_len(&self.functions)
    }

    /// The function body at position `i`.
    pub fn function_at(&self, i: usize) -> (r: &MirBody)
        requires
            i < self.funcs().len(),
        ensures
            *r == self.funcs()[i as int].1,
    {
        match func_table_value_at(&self.functions, i) {
            Some(b) => b,
            None => vstd::pervasive::unreached(),
        }
    }
}

proof fn lemma_func_lookup_push(s: Seq<(MirFuncId, MirBody)>, k: MirFuncId, v: MirBody, q: MirFuncId)
    requires
        forall|i: int| 0 <= i < s.len() ==> s[i].0 != k,
    ensures
        func_lookup(s.push((k, v)), q) == if q == k {
            Some(v)
        } else {
            func_lookup(s, q)
        },
    decreases s.len(),
{
    let t = s.push((k, v));
    if s.len() == 0 {
        assert(t[0] == (k, v));
        assert(t.drop_first() =~= s);
    } else {
        assert(t[0] == s[0]);
        assert(t.drop_first() =~= s.drop_first().push((k, v)));
        lemma_func_lookup_push(s.drop_first(), k, v, q);
    }
}

proof fn lemma_def_lookup_push(s: Seq<(DefId, MirFuncId)>, k: DefId, v: MirFuncId, q: DefId)
    requires
        forall|i: int| 0 <= i < s.len() ==> s[i].0 != k,
    ensures
        def_lookup(s.push((k, v)), q) == if q == k {
            Some(v)
        } else {
            def_lookup(s, q)
        },
    decreases s.len(),
{
    let t = s.push((k, v));
    if s.len() == 0 {
        assert(t[0] == (k, v));
        assert(t.drop_first() =~= s);
    } else {
        assert(t[0] == s[0]);
        assert(t.drop_first() =~= s.drop_first().push((k, v)));
        lemma_def_lookup_push(s.drop_first(), k, v, q);
    }
}

/// Registering a new function body under a new definition makes the
/// definition find that body, and every other definition finds what it
/// found before: the state after `insert_function(f, body)` and
/// `insert_def(def, f)` on a crate that had neither.
pub proof fn body_of_new_definition(before: MirCrate, after: MirCrate, def: DefId, f: MirFuncId, body: MirBody, other: DefId)
    requires
        forall|i: int| 0 <= i < before.funcs().len() ==> before.funcs()[i].0 != f,
        forall|i: int| 0 <= i < before.defs().len() ==> before.defs()[i].0 != def,
        after.funcs() == before.funcs().push((f, body)),
        after.defs() == before.defs().push((def, f)),
        other != def,
        def_lookup(before.defs(), other) != Some(f),
    ensures
        after.spec_get_by_def(def) == Some(body),
        after.spec_get_by_def(other) == before.spec_get_by_def(other),
{
    lemma_def_lookup_push(before.defs(), def, f, def);
    lemma_def_lookup_push(before.defs(), def, f, other);
    lemma_func_lookup_push(before.funcs(), f, body, f);
    match def_lookup(before.defs(), other) {
        Some(g) => lemma_func_lookup_push(before.funcs(), f, body, g),
        None => {},
    }
}

} // verus!
