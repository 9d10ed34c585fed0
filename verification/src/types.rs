//! The parts of the type model that the IRs and the back end refer to:
//! mutability, regions, generic substitutions and the kinds of types.

use vstd::prelude::*;

use crate::ids::TypeId;

verus! {

/// Mutability of a binding, a local or a reference.
#[derive(Clone, Copy, Debug, PartialEq, Eq, Structural, Hash)]
pub enum Mutability {
    Imm,
    Mut,
}

/// A lifetime region of a reference.
#[derive(Clone, Copy, Debug, PartialEq, Eq, Structural, Hash)]
pub struct RegionId(pub u32);

/// Type arguments applied to a generic definition.
#[derive(Clone, Debug)]
pub struct Subst {
    pub args: Vec<TypeId>,
}

impl Subst {
    /// The substitution without arguments.
    pub fn empty() -> (s: Subst)
        ensures
            s.args@.len() == 0,
    {
        Subst { args: Vec::new() }
    }
}

/// The kind of a type, as far as code generation distinguishes types.
#[derive(Clone, Copy, Debug, PartialEq, Eq, Structural)]
pub enum TyKind {
    Bool,
    Str,
    Unit,
    Never,
    Int,
    Float,
    /// Every other kind: references, tuples, arrays, structs, enums, ...
    Other,
}

/// The kinds of the types of a crate, by type id.
#[derive(Clone, Debug)]
pub struct TypeTable {
    pub kinds: Vec<TyKind>,
}

impl TypeTable {
    /// The kind of type `ty`.
    pub fn kind(&self, ty: TypeId) -> (k: TyKind)
        requires
            ty.0 < self.kinds@.len(),
        ensures
            k == self.kinds@[ty.0 as int],
    {
        self.kinds[ty.index()]
    }
}

} // verus!
