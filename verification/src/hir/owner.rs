use vstd::prelude::*;

use indexmap::IndexMap;

use crate::hir::stmt::HirBody;
use crate::ids::DefId;

verus! {

/// HIR owner kinds (one per definition).
#[derive(Clone, Debug)]
pub enum HirOwnerKind {
    Function(HirBody),
}

/// HIR owner node.
#[derive(Clone, Debug)]
pub struct HirOwner {
    pub def_id: DefId,
    pub kind: HirOwnerKind,
}

/// Whole-crate HIR: the owners in order of definition.
#[derive(Debug)]
pub struct HirCrate {
    owners: IndexMap<DefId, HirOwner>,
}

/// No two entries of `s` are for the same definition.
pub open spec fn keys_distinct(s: Seq<(DefId, HirOwner)>) -> bool {
    forall|i: int, j: int| 0 <= i < s.len() && 0 <= j < s.len() && i != j ==> #[trigger] s[i].0 != #[trigger] s[j].0
}

/// The entries of an owner table, in their order.
pub uninterp spec fn owner_entries(m: IndexMap<DefId, HirOwner>) -> Seq<(DefId, HirOwner)>;

/// `IndexMap::new`: an empty map.
#[verifier::external_body]
fn owner_table_new() -> (m: IndexMap<DefId, HirOwner>)
    ensures
        owner_entries(m) == Seq::<(DefId, HirOwner)>::empty(),
{
    IndexMap::new()
}

/// `IndexMap::insert`: an existing key keeps its place and gets the new
/// value; a new key is appended.
#[verifier::external_body]
fn owner_table_insert(m: &mut IndexMap<DefId, HirOwner>, k: DefId, v: HirOwner)
    ensures
        (exists|i: int| 0 <= i < owner_entries(*old(m)).len() && owner_entries(*old(m))[i].0 == k) ==> (exists|i: int|
            0 <= i < owner_entries(*old(m)).len() && owner_entries(*old(m))[i].0 == k
                && owner_entries(*final(m)) == owner_entries(*old(m)).update(i, (k, v))),
        (forall|i: int| 0 <= i < owner_entries(*old(m)).len() ==> owner_entries(*old(m))[i].0 != k) ==> owner_entries(*final(m))
            == owner_entries(*old(m)).push((k, v)),
{
    m.insert(k, v);
}

/// `IndexMap::len`: the number of entries.
#[verifier::external_body]
fn owner_table_len(m: &IndexMap<DefId, HirOwner>) -> (n: usize)
    ensures
        n == owner_entries(*m).len(),
{
    m.len()
}

/// `IndexMap::get_index`: the entry at position `i`.
#[verifier::external_body]
fn owner_table_entry_at(m: &IndexMap<DefId, HirOwner>, i: usize) -> (r: Option<(DefId, &HirOwner)>)
    ensures
        match r {
            Some(e) => i < owner_entries(*m).len() && e.0 == owner_entries(*m)[i as int].0 && *e.1 == owner_entries(*m)[i as int].1,
            None => i >= owner_entries(*m).len(),
        },
{
    m.get_index(i).map(|(k, v)| (*k, v))
}

impl HirCrate {
    /// A crate without owners.
    pub fn new() -> (c: HirCrate)
        ensures
            c.entries().len() == 0,
    {
        HirCrate { owners: owner_table_new() }
    }

    /// The owners, in order.
    pub closed spec fn entries(&self) -> Seq<(DefId, HirOwner)> {
        owner_entries(self.owners)
    }

    /// Each definition has at most one owner.
    #[verifier::type_invariant]
    closed spec fn one_owner_per_definition(&self) -> bool {
        keys_distinct(self.entries())
    }

    /// Adds or replaces the owner of `def`.
    pub fn insert(&mut self, def: DefId, owner: HirOwner)
        ensures
            (exists|i: int| 0 <= i < old(self).entries().len() && old(self).entries()[i].0 == def) ==> (exists|i: int|
                0 <= i < old(self).entries().len() && old(self).entries()[i].0 == def
                    && final(self).entries() == old(self).entries().update(i, (def, owner))),
            (forall|i: int| 0 <= i < old(self).entries().len() ==> old(self).entries()[i].0 != def) ==> final(self).entries()
                == old(self).entries().push((def, owner)),
    {
        proof {
            use_type_invariant(&*self);
        }
        let ghost before = self.entries();
        let mut owners = owner_table_new();
        std::mem::swap(&mut owners, &mut self.owners);
        owner_table_insert(&mut owners, def, owner);
        proof {
            let after = owner_entries(owners);
            if exists|i: int| 0 <= i < before.len() && before[i].0 == def {
                let i0 = choose|i: int| 0 <= i < before.len() && before[i].0 == def && after == before.update(i, (def, owner));
                assert forall|i: int, j: int| 0 <= i < after.len() && 0 <= j < after.len() && i != j implies #[trigger] after[i].0
                    != #[trigger] after[j].0 by {
                    assert(before[i].0 != before[j].0);
                }
            } else {
                assert forall|i: int, j: int| 0 <= i < after.len() && 0 <= j < after.len() && i != j implies #[trigger] after[i].0
                    != #[trigger] after[j].0 by {
                    if i < before.len() && j < before.len() {
                        assert(before[i].0 != before[j].0);
                    }
                }
            }
        }
        self.owners = owners;
    }

    /// The number of owners.
    pub fn len(&self) -> (n: usize)
        ensures
            n == self.entries().len(),
            keys_distinct(self.entries()),
    {
        proof {
            use_type_invariant(self);
        }
        owner_table_len(&self.owners)
    }

    /// The owner at position `i`, with its definition.
    pub fn entry_at(&self, i: usize) -> (r: (DefId, &HirOwner))
        requires
            i < self.entries().len(),
        ensures
            r.0 == self.entries()[i as int].0,
            *r.1 == self.entries()[i as int].1,
    {
        match owner_table_entry_at(&self.owners, i) {
            Some(e) => e,
            None => vstd::pervasive::unreached(),
        }
    }
}

} // verus!
