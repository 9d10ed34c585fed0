use vstd::prelude::*;

use crate::ids::LocalId;

verus! {

/// MIR place (lvalue): a local and a path of projections into it.
#[derive(Clone, Debug, PartialEq, Eq, Hash)]
pub struct Place {
    pub local: LocalId,
    pub projection: Vec<Projection>,
}

/// Projections on a MIR place.
#[derive(Clone, Copy, Debug, PartialEq, Eq, Structural, Hash)]
pub enum Projection {
    Field(u32),
    Index(LocalId),
    Deref,
    Downcast(u32),
}

impl Place {
    /// The place of local `local` itself.
    pub fn local(local: LocalId) -> (p: Place)
        ensures
            p.local == local,
            p.projection@.len() == 0,
    {
        Place { local, projection: Vec::new() }
    }

    /// The return place `_0`.
    pub fn return_place() -> (p: Place)
        ensures
            p.local.0 == 0,
            p.projection@.len() == 0,
    {
        Self::local(LocalId::from_usize(0))
    }
}

/// A copy of the projections of `v`.
pub fn clone_projections(v: &Vec<Projection>) -> (r: Vec<Projection>)
    ensures
        r@ == v@,
{
    let mut r: Vec<Projection> = Vec::new();
    let mut i: usize = 0;
    while i < v.len()
        invariant
            i <= v@.len(),
            r@ == v@.subrange(0, i as int),
        decreases v@.len() - i,
    {
        r.push(v[i]);
        i = i + 1;
        assert(r@ =~= v@.subrange(0, i as int));
    }
    assert(v@.subrange(0, v@.len() as int) =~= v@);
    r
}

/// A copy of `p` with the same local and projections.
pub fn clone_place(p: &Place) -> (r: Place)
    ensures
        r.local == p.local,
        r.projection@ == p.projection@,
{
    Place { local: p.local, projection: clone_projections(&p.projection) }
}

} // verus!
