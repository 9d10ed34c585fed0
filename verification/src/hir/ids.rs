use vstd::prelude::*;

verus! {

/// Index of an expression in its body.
#[derive(Clone, Copy, PartialEq, Eq, Structural, Hash, Debug, Default)]
pub struct HirExprId(pub u32);

impl HirExprId {
    /// The id of position `index`, truncated to 32 bits.
    pub fn from_usize(index: usize) -> (id: Self)
        ensures
            id.0 == index as u32,
    {
        HirExprId(index as u32)
    }

    /// The position this id names.
    pub fn index(self) -> (i: usize)
        ensures
            i == self.0,
    {
        self.0 as usize
    }
}

/// Index of a statement in its body.
#[derive(Clone, Copy, PartialEq, Eq, Structural, Hash, Debug, Default)]
pub struct HirStmtId(pub u32);

impl HirStmtId {
    /// The id of position `index`, truncated to 32 bits.
    pub fn from_usize(index: usize) -> (id: Self)
        ensures
            id.0 == index as u32,
    {
        HirStmtId(index as u32)
    }

    /// The position this id names.
    pub fn index(self) -> (i: usize)
        ensures
            i == self.0,
    {
        self.0 as usize
    }
}

/// Index of a pattern in its body.
#[derive(Clone, Copy, PartialEq, Eq, Structural, Hash, Debug, Default)]
pub struct HirPatId(pub u32);

impl HirPatId {
    /// The id of position `index`, truncated to 32 bits.
    pub fn from_usize(index: usize) -> (id: Self)
        ensures
            id.0 == index as u32,
    {
        HirPatId(index as u32)
    }

    /// The position this id names.
    pub fn index(self) -> (i: usize)
        ensures
            i == self.0,
    {
        self.0 as usize
    }
}

} // verus!
